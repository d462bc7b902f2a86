//! FLV container: header probing, tag framing, and the per-track sample queues.
use vstd::prelude::*;
use crate::amf_parser::ScriptData;
use crate::bytes::{be32_at, copy_range, read_be_u32};
use crate::flv_codec::{BrowserKind, DemuxError};
use crate::media_info::MediaInfo;
use crate::mp4_generator::{Meta, TrackType, meta_fits};
use crate::mp4_remuxer::{
    InitSegment, MediaSegment, REF_LIMIT, TIME_LIMIT, TRACK_LIMIT, audio_meta_ok, audio_track_ok,
    video_track_ok,
};
use crate::sps_parser::{FrameInfo, Size};

verus! {

// ---------------------------------------------------------------- header

/// What the FLV header announces.
pub struct FLVProbeData {
    pub consumed: usize,
    pub dataOffset: usize,
    pub hasAudioTrack: bool,
    pub hasVideoTrack: bool,
}

/// The FLV header at the start of `data`: the offset of the first tag and whether audio
/// and video are announced; `None` unless the signature is `FLV` version 1 and the
/// offset is at least 9.
pub open spec fn spec_probe(data: Seq<u8>) -> Option<(int, bool, bool)> {
    if data[0] != 0x46 || data[1] != 0x4C || data[2] != 0x56 || data[3] != 0x01 {
        None
    } else if be32_at(data, 5) < 9 {
        None
    } else {
        Some((be32_at(data, 5), (data[4] / 4) % 2 == 1, data[4] % 2 == 1))
    }
}

/// Reads the FLV header.
pub fn probe(data: &[u8]) -> (r: Option<FLVProbeData>)
    requires
        data@.len() >= 9,
    ensures
        match spec_probe(data@) {
            None => r is None,
            Some((off, a, v)) => r matches Some(p) && p.consumed == off && p.dataOffset == off
                && p.hasAudioTrack == a && p.hasVideoTrack == v,
        },
{
    // "F L V version"
    if data[0] != 0x46 || data[1] != 0x4C || data[2] != 0x56 || data[3] != 0x01 {
        return None;
    }
    let flags = data[4];
    let hasAudio = ((flags & 4) >> 2) != 0;
    let hasVideo = (flags & 1) != 0;
    proof {
        assert((((flags & 4) >> 2) != 0) == ((flags / 4) % 2 == 1)) by (bit_vector);
        assert(((flags & 1) != 0) == (flags % 2 == 1)) by (bit_vector);
    }
    let offset = read_be_u32(&data[5..9]);
    if offset < 9 {
        return None;
    }
    Some(FLVProbeData {
        consumed: offset as usize,
        dataOffset: offset as usize,
        hasAudioTrack: hasAudio,
        hasVideoTrack: hasVideo,
    })
}

// ---------------------------------------------------------------- track metadata

/// What the demuxer knows of the audio track.
pub struct AudioTrackMetaData {
    /// The fields the init segment is made from.
    pub meta: Meta,
    pub originalCodec: String,
    /// One frame lasts `refSampleDurationNum / refSampleDurationDen` timescale units
    /// (no length is known while the denominator is 0).
    pub refSampleDurationNum: u64,
    pub refSampleDurationDen: u64,
}

/// What the demuxer knows of the video track.
pub struct VideoTrackMetaData {
    /// The fields the init segment is made from.
    pub meta: Meta,
    pub profile: String,
    pub level: String,
    pub bitDepth: u64,
    pub chromaFormat: u32,
    pub sarRatio: Size,
    pub frameRate: FrameInfo,
    /// One frame lasts this many timescale units, rounded down.
    pub refSampleDuration: u64,
}

/// Metadata of either track, as handed to the remuxer.
pub enum TrackMetaData {
    Video(VideoTrackMetaData),
    Audio(AudioTrackMetaData),
}

// ---------------------------------------------------------------- sample queues

/// One NAL unit of an AVC sample, length prefix included.
pub struct Unit {
    pub _type: u8,
    pub data: Vec<u8>,
}

/// One AVC access unit read from a video tag.
pub struct VideoSample {
    pub units: Vec<Unit>,
    pub length: usize,
    pub isKeyframe: bool,
    pub dts: i64,
    pub cts: i64,
    pub pts: i64,
    pub fileposition: Option<u64>,
}

/// One audio frame read from an audio tag.
pub struct AudioSample {
    pub unit: Vec<u8>,
    pub length: usize,
    pub dts: i64,
    pub pts: i64,
}

/// The bytes of a sequence of units, in order.
pub open spec fn units_bytes(units: Seq<Unit>) -> Seq<u8> {
    units.map_values(|u: Unit| u.data@).flatten()
}

/// The bytes of a video sample: those of its units.
pub open spec fn video_sample_bytes(s: VideoSample) -> Seq<u8> {
    units_bytes(s.units@)
}

pub open spec fn video_sample_wf(s: VideoSample) -> bool {
    s.length == video_sample_bytes(s).len()
}

pub open spec fn audio_sample_wf(s: AudioSample) -> bool {
    s.length == s.unit@.len()
}

/// Sum of the `length` fields of video samples.
pub open spec fn video_total(ss: Seq<VideoSample>) -> nat
    decreases ss.len(),
{
    if ss.len() == 0 {
        0
    } else {
        video_total(ss.drop_last()) + ss.last().length as nat
    }
}

/// Sum of the `length` fields of audio samples.
pub open spec fn audio_total(ss: Seq<AudioSample>) -> nat
    decreases ss.len(),
{
    if ss.len() == 0 {
        0
    } else {
        audio_total(ss.drop_last()) + ss.last().length as nat
    }
}

/// The video samples waiting to be remuxed.
pub struct VideoTrack {
    pub id: u32,
    pub sequenceNumber: u32,
    pub samples: Vec<VideoSample>,
    pub length: usize,
}

/// The audio samples waiting to be remuxed.
pub struct AudioTrack {
    pub id: u32,
    pub sequenceNumber: u32,
    pub samples: Vec<AudioSample>,
    pub length: usize,
}

impl VideoTrack {
    /// Each sample's length is its byte count, and the track's length is their sum.
    pub open spec fn wf(&self) -> bool {
        &&& forall|i: int| 0 <= i < self.samples@.len() ==> video_sample_wf(#[trigger] self.samples@[i])
        &&& self.length == video_total(self.samples@)
    }

    pub fn new(id: u32) -> (r: VideoTrack)
        ensures
            r.wf(),
            r.id == id,
            r.sequenceNumber == 0,
            r.samples@.len() == 0,
            r.length == 0,
    {
        VideoTrack { id, sequenceNumber: 0, samples: Vec::new(), length: 0 }
    }

    /// Appends a sample and counts its bytes.
    pub fn push_sample(&mut self, s: VideoSample)
        requires
            old(self).wf(),
            video_sample_wf(s),
            old(self).length + s.length <= usize::MAX,
        ensures
            final(self).wf(),
            final(self).samples@ == old(self).samples@.push(s),
            final(self).length == old(self).length + s.length,
            final(self).id == old(self).id,
            final(self).sequenceNumber == old(self).sequenceNumber,
    {
        let ghost before = self.samples@;
        self.length = self.length + s.length;
        self.samples.push(s);
        assert(self.samples@.drop_last() =~= before);
    }
}

impl AudioTrack {
    /// Each sample's length is its byte count, and the track's length is their sum.
    pub open spec fn wf(&self) -> bool {
        &&& forall|i: int| 0 <= i < self.samples@.len() ==> audio_sample_wf(#[trigger] self.samples@[i])
        &&& self.length == audio_total(self.samples@)
    }

    pub fn new(id: u32) -> (r: AudioTrack)
        ensures
            r.wf(),
            r.id == id,
            r.sequenceNumber == 0,
            r.samples@.len() == 0,
            r.length == 0,
    {
        AudioTrack { id, sequenceNumber: 0, samples: Vec::new(), length: 0 }
    }

    /// Appends a sample and counts its bytes.
    pub fn push_sample(&mut self, s: AudioSample)
        requires
            old(self).wf(),
            audio_sample_wf(s),
            old(self).length + s.length <= usize::MAX,
        ensures
            final(self).wf(),
            final(self).samples@ == old(self).samples@.push(s),
            final(self).length == old(self).length + s.length,
            final(self).id == old(self).id,
            final(self).sequenceNumber == old(self).sequenceNumber,
    {
        let ghost before = self.samples@;
        self.length = self.length + s.length;
        self.samples.push(s);
        assert(self.samples@.drop_last() =~= before);
    }
}

// ---------------------------------------------------------------- AVC NAL units

/// How far `offset` is from `size`, or 0 past it.
pub open spec fn remaining(size: int, offset: int) -> int {
    if offset < size { size - offset } else { 0 }
}

/// The NAL units of an AVC packet body `[off, off + size)` of `buf`, each as its type and
/// the buffer range `[start, start + len)` it occupies, length prefix included; `None`
/// when a unit announces more bytes than the packet or the buffer holds. Fewer than five
/// bytes left end the walk.
pub open spec fn spec_nalus(buf: Seq<u8>, off: int, size: int, ls: int, offset: int) -> Option<Seq<(u8, int, int)>>
    decreases remaining(size, offset),
{
    if offset >= size || offset + 4 >= size || ls < 1 {
        Some(Seq::empty())
    } else {
        let raw = be32_at(buf, off + offset);
        let n = if ls == 3 { raw / 256 } else { raw };
        if n > size - ls || off + offset + ls + n > buf.len() {
            None
        } else {
            let t = (buf[off + offset + ls] % 32) as u8;
            proof {
                assert(raw >= 0);
                assert(ls + n >= 1);
            }
            match spec_nalus(buf, off, size, ls, offset + ls + n) {
                None => None,
                Some(rest) => Some(seq![(t, off + offset, ls + n)] + rest),
            }
        }
    }
}

/// The NAL units of an AVC packet body lie back to back from `offset` (ISO/IEC 14496-15
/// 5.3.4.2): each is a big-endian length of `ls` bytes (3 or 4) then that many bytes; its
/// type is the low five bits of the byte after the length; no unit is longer than the body.
pub proof fn lemma_nalus_layout(buf: Seq<u8>, off: int, size: int, ls: int, offset: int)
    requires
        0 <= off,
        0 <= offset,
        ls == 3 || ls == 4,
    ensures
        spec_nalus(buf, off, size, ls, offset) matches Some(r) ==> {
            &&& forall|j: int| 0 <= j < r.len() ==> {
                let u = #[trigger] r[j];
                let n = if ls == 4 { be32_at(buf, u.1) } else {
                    buf[u.1] as int * 0x10000 + buf[u.1 + 1] as int * 0x100 + buf[u.1 + 2] as int
                };
                &&& u.2 == ls + n
                &&& u.0 == buf[u.1 + ls] & 31u8
                &&& off + offset <= u.1
                &&& u.2 <= size
                &&& u.1 + u.2 <= buf.len()
                &&& u.1 == if j == 0 { off + offset } else { r[j - 1].1 + r[j - 1].2 }
            }
        },
    decreases remaining(size, offset),
{
    if !(offset >= size || offset + 4 >= size || ls < 1) {
        let raw = be32_at(buf, off + offset);
        let n = if ls == 3 { raw / 256 } else { raw };
        if !(n > size - ls || off + offset + ls + n > buf.len()) {
            let p = off + offset;
            let b = buf[p + ls];
            assert(b % 32 == b & 31u8) by (bit_vector);
            if ls == 3 {
                assert(raw / 256 == buf[p] as int * 0x10000 + buf[p + 1] as int * 0x100 + buf[p + 2] as int);
            }
            lemma_nalus_layout(buf, off, size, ls, offset + ls + n);
            match spec_nalus(buf, off, size, ls, offset + ls + n) {
                None => {},
                Some(rest) => {
                    let r = spec_nalus(buf, off, size, ls, offset)->Some_0;
                    assert(r == seq![((b % 32) as u8, p, ls + n)] + rest);
                    assert forall|j: int| 0 <= j < r.len() implies {
                        let u = #[trigger] r[j];
                        let m = if ls == 4 { be32_at(buf, u.1) } else {
                            buf[u.1] as int * 0x10000 + buf[u.1 + 1] as int * 0x100 + buf[u.1 + 2] as int
                        };
                        &&& u.2 == ls + m
                        &&& u.0 == buf[u.1 + ls] & 31u8
                        &&& off + offset <= u.1
                        &&& u.2 <= size
                &&& u.1 + u.2 <= buf.len()
                        &&& u.1 == if j == 0 { off + offset } else { r[j - 1].1 + r[j - 1].2 }
                    } by {
                        if j > 0 {
                            assert(r[j] == rest[j - 1]);
                            if j > 1 {
                                assert(r[j - 1] == rest[j - 2]);
                            }
                        }
                    }
                },
            }
        }
    }
}

/// `units` are the NAL units that `refs` locate in `buf`.
pub open spec fn units_match(buf: Seq<u8>, units: Seq<Unit>, refs: Seq<(u8, int, int)>) -> bool {
    &&& units.len() == refs.len()
    &&& forall|i: int| 0 <= i < units.len() ==> {
        &&& (#[trigger] units[i])._type == refs[i].0
        &&& units[i].data@ == buf.subrange(refs[i].1, refs[i].1 + refs[i].2)
    }
}

proof fn lemma_units_bytes_push(us: Seq<Unit>, u: Unit)
    ensures
        units_bytes(us.push(u)) == units_bytes(us) + u.data@,
{
    let f = |x: Unit| x.data@;
    assert(us.push(u).map_values(f) =~= us.map_values(f).push(u.data@));
    us.map_values(f).lemma_flatten_push(u.data@);
}

/// Every range of `refs` lies in a buffer of `len` bytes.
pub open spec fn refs_in(len: int, refs: Seq<(u8, int, int)>) -> bool {
    forall|i: int| 0 <= i < refs.len() ==> 0 <= (#[trigger] refs[i]).1 && refs[i].1 + refs[i].2 <= len && refs[i].2 >= 0
}

/// `done` followed by the refs of `rest`, if any.
pub open spec fn prepend_refs(done: Seq<(u8, int, int)>, rest: Option<Seq<(u8, int, int)>>) -> Option<Seq<(u8, int, int)>> {
    match rest {
        None => None,
        Some(r) => Some(done + r),
    }
}

/// Splits an AVC packet body into its NAL units.
fn split_nalus(buf: &[u8], off: usize, size: usize, ls: u8) -> (r: Option<(Vec<Unit>, usize)>)
    requires
        off + size <= buf@.len(),
        1 <= ls <= 4,
    ensures
        match spec_nalus(buf@, off as int, size as int, ls as int, 0) {
            None => r is None,
            Some(refs) => r matches Some((us, len)) && units_match(buf@, us@, refs)
                && len == units_bytes(us@).len() && refs_in(buf@.len() as int, refs),
        },
{
    let mut units: Vec<Unit> = Vec::new();
    let mut length: usize = 0;
    let mut offset: usize = 0;
    let ghost whole = spec_nalus(buf@, off as int, size as int, ls as int, 0);
    let ghost mut done: Seq<(u8, int, int)> = Seq::empty();
    assert(whole == prepend_refs(done, spec_nalus(buf@, off as int, size as int, ls as int, 0))) by {
        match whole {
            None => {},
            Some(w) => { assert(done + w =~= w); },
        }
    }
    let blen = buf.len();
    while offset < size && size - offset > 4
        invariant
            blen == buf@.len(),
            off + size <= buf@.len(),
            1 <= ls <= 4,
            off + offset <= buf@.len(),
            whole == spec_nalus(buf@, off as int, size as int, ls as int, 0),
            whole == prepend_refs(done, spec_nalus(buf@, off as int, size as int, ls as int, offset as int)),
            units_match(buf@, units@, done),
            refs_in(buf@.len() as int, done),
            length == units_bytes(units@).len(),
            length == offset,
        decreases remaining(size as int, offset as int),
    {
        let raw = read_be_u32(&buf[off + offset..off + offset + 4]);
        proof {
            assert(raw >> 8 == raw / 256) by (bit_vector);
        }
        let naluSize: u32 = if ls == 3 { raw >> 8 } else { raw };
        if naluSize as usize > size - ls as usize || naluSize as usize > buf.len() - off - offset - ls as usize {
            return None;
        }
        let unitType = buf[off + offset + ls as usize] & 0x1F;
        proof {
            let b = buf@[off + offset + ls as int];
            assert(b & 0x1F == b % 32) by (bit_vector);
        }
        let start = off + offset;
        let end = start + ls as usize + naluSize as usize;
        let data = copy_range(buf, start, end);
        let ghost u = Unit { _type: unitType, data };
        let ghost r = (unitType, start as int, (ls as usize + naluSize as usize) as int);
        proof {
            lemma_units_bytes_push(units@, u);
            let next = spec_nalus(buf@, off as int, size as int, ls as int, (offset + ls as usize + naluSize as usize) as int);
            match next {
                None => {},
                Some(rest) => { assert(done + (seq![r] + rest) =~= done.push(r) + rest); },
            }
        }
        length = length + data.len();
        units.push(Unit { _type: unitType, data });
        proof {
            done = done.push(r);
        }
        offset = offset + ls as usize + naluSize as usize;
    }
    assert(done + Seq::<(u8, int, int)>::empty() =~= done);
    Some((units, length))
}

// ---------------------------------------------------------------- the demuxer

/// The size and profile of the last video configuration seen.
pub struct VideoDimension {
    pub width: i64,
    pub height: i64,
    pub profile: String,
    pub level: String,
}

/// Byte counts for the realtime bitrate.
pub struct BpsInfo {
    pub lastVideoBytes: usize,
    pub lastAudioBytes: usize,
    pub bps_video: usize,
    pub bps_audio: usize,
    /// When data last came, in milliseconds; 0 before any.
    pub data_updated_time: u64,
    pub time_gap_factor: u64,
}

/// What the demuxer reports while it parses.
pub enum DemuxEvent {
    Error(DemuxError),
    /// The media information is complete.
    MediaInfo,
    /// An `onMetaData` script tag was parsed.
    ScriptMetadata,
    VideoResolutionChanged { width: i64, height: i64 },
    Init(InitSegment),
    Media(MediaSegment),
}

/// Demuxes an FLV byte stream into audio and video sample queues.
pub struct FLVDemuxer {
    pub _mediaInfo: MediaInfo,
    pub _hasAudio: bool,
    pub _hasVideo: bool,
    pub _hasAudioFlagOverrided: bool,
    pub _hasVideoFlagOverrided: bool,
    pub _audioInitialMetadataDispatched: bool,
    pub _videoInitialMetadataDispatched: bool,
    pub _lastVideoDimension: Option<VideoDimension>,
    pub _dispatch: bool,
    pub _firstParse: bool,
    pub _metadata: Option<ScriptData>,
    pub _audioMetadata: Option<AudioTrackMetaData>,
    pub _videoMetadata: Option<VideoTrackMetaData>,
    pub _naluLengthSize: u8,
    pub _timestampBase: i64,
    pub _timescale: u32,
    pub _duration: i64,
    pub _durationOverrided: bool,
    pub _dataOffset: usize,
    pub _referenceFrameRate: FrameInfo,
    pub _bpsInfo: BpsInfo,
    pub _videoTrack: VideoTrack,
    pub _audioTrack: AudioTrack,
    /// Which browser family the AAC configuration is rewritten for.
    pub _browser: BrowserKind,
}

/// The audio metadata the demuxer hands on is usable by the remuxer.
pub open spec fn audio_metadata_ok(m: AudioTrackMetaData) -> bool {
    &&& audio_meta_ok(m)
    &&& meta_fits(&m.meta)
    &&& m.meta._type == TrackType::Audio
    &&& m.meta.avcc@.len() == 0
    &&& m.meta.config@.len() <= 4
}

/// The video metadata the demuxer hands on is usable by the remuxer.
pub open spec fn video_metadata_ok(m: VideoTrackMetaData) -> bool {
    &&& m.refSampleDuration <= REF_LIMIT()
    &&& meta_fits(&m.meta)
    &&& m.meta._type == TrackType::Video
    &&& m.meta.config@.len() == 0
}

/// Whether initial metadata went out for every track the stream has.
pub open spec fn initial_metadata_dispatched(d: FLVDemuxer) -> bool {
    if d._hasAudio && d._hasVideo {
        d._audioInitialMetadataDispatched && d._videoInitialMetadataDispatched
    } else if d._hasAudio && !d._hasVideo {
        d._audioInitialMetadataDispatched
    } else if !d._hasAudio && d._hasVideo {
        d._videoInitialMetadataDispatched
    } else {
        false
    }
}

/// `x` bytes per `gap` seconds, in kilobits per second.
pub open spec fn kbps(x: int, gap: int) -> int {
    8 * x / 1024 / gap
}

impl FLVDemuxer {
    /// What the demuxer keeps true between calls.
    pub open spec fn wf(&self) -> bool {
        &&& video_track_ok(&self._videoTrack)
        &&& audio_track_ok(&self._audioTrack)
        &&& 1 <= self._naluLengthSize <= 4
        &&& 0 <= self._timestampBase <= 0x100_0000_0000
        &&& self._timescale <= 0x1_0000
        &&& match self._audioMetadata {
            Some(m) => audio_metadata_ok(m),
            None => true,
        }
        &&& match self._videoMetadata {
            Some(m) => video_metadata_ok(m),
            None => true,
        }
        &&& self._referenceFrameRate.fps_num >= 1
        &&& self._referenceFrameRate.fps_den <= 0x2_0000_0000
    }

    /// A demuxer for a stream whose header `probeData` describes.
    pub fn new(probeData: &FLVProbeData, browser: BrowserKind) -> (r: FLVDemuxer)
        ensures
            r.wf(),
            r._hasAudio == probeData.hasAudioTrack,
            r._hasVideo == probeData.hasVideoTrack,
            !r._hasAudioFlagOverrided && !r._hasVideoFlagOverrided,
            !r._audioInitialMetadataDispatched && !r._videoInitialMetadataDispatched,
            r._lastVideoDimension is None,
            !r._dispatch,
            r._firstParse,
            r._metadata is None,
            r._audioMetadata is None && r._videoMetadata is None,
            r._naluLengthSize == 4,
            r._timestampBase == 0,
            r._timescale == 1000,
            r._duration == 0,
            !r._durationOverrided,
            r._dataOffset == probeData.dataOffset,
            r._referenceFrameRate == (FrameInfo { fixed: true, fps: 23, fps_num: 23976, fps_den: 1000 }),
            r._videoTrack.id == 1 && r._videoTrack.samples@.len() == 0 && r._videoTrack.length == 0,
            r._audioTrack.id == 2 && r._audioTrack.samples@.len() == 0 && r._audioTrack.length == 0,
            r._videoTrack.sequenceNumber == 0 && r._audioTrack.sequenceNumber == 0,
            r._bpsInfo == (BpsInfo {
                lastVideoBytes: 0,
                lastAudioBytes: 0,
                bps_video: 0,
                bps_audio: 0,
                data_updated_time: 0,
                time_gap_factor: 1,
            }),
            !initial_metadata_dispatched(r),
            r._browser == browser,
            crate::media_info::media_info_empty(&r._mediaInfo),
    {
        FLVDemuxer {
            _mediaInfo: MediaInfo::default(),
            _hasAudio: probeData.hasAudioTrack,
            _hasVideo: probeData.hasVideoTrack,
            _hasAudioFlagOverrided: false,
            _hasVideoFlagOverrided: false,
            _audioInitialMetadataDispatched: false,
            _videoInitialMetadataDispatched: false,
            _lastVideoDimension: None,
            _dispatch: false,
            _firstParse: true,
            _metadata: None,
            _audioMetadata: None,
            _videoMetadata: None,
            _naluLengthSize: 4,
            _timestampBase: 0,
            _timescale: 1000,
            _duration: 0,
            _durationOverrided: false,
            _dataOffset: probeData.dataOffset,
            // 23.976 fps
            _referenceFrameRate: FrameInfo { fixed: true, fps: 23, fps_num: 23976, fps_den: 1000 },
            _bpsInfo: BpsInfo {
                lastVideoBytes: 0,
                lastAudioBytes: 0,
                bps_video: 0,
                bps_audio: 0,
                data_updated_time: 0,
                time_gap_factor: 1,
            },
            _videoTrack: VideoTrack::new(1),
            _audioTrack: AudioTrack::new(2),
            _browser: browser,
        }
    }

    /// Clears the media information.
    pub fn resetMediaInfo(&mut self)
        ensures
            crate::media_info::media_info_empty(&final(self)._mediaInfo),
            *final(self) == (FLVDemuxer { _mediaInfo: final(self)._mediaInfo, ..*old(self) }),
    {
        self._mediaInfo = MediaInfo::default();
    }

    /// Drops what the demuxer holds: media information, metadata, queued samples and the
    /// last video dimension.
    pub fn destroy(&mut self)
        ensures
            crate::media_info::media_info_empty(&final(self)._mediaInfo),
            final(self)._metadata is None,
            final(self)._audioMetadata is None,
            final(self)._videoMetadata is None,
            final(self)._lastVideoDimension is None,
            final(self)._videoTrack.id == old(self)._videoTrack.id,
            final(self)._videoTrack.samples@.len() == 0 && final(self)._videoTrack.length == 0,
            final(self)._audioTrack.id == old(self)._audioTrack.id,
            final(self)._audioTrack.samples@.len() == 0 && final(self)._audioTrack.length == 0,
            final(self)._videoTrack.sequenceNumber == 0 && final(self)._audioTrack.sequenceNumber == 0,
            *final(self) == (FLVDemuxer {
                _mediaInfo: final(self)._mediaInfo,
                _metadata: None,
                _audioMetadata: None,
                _videoMetadata: None,
                _lastVideoDimension: None,
                _videoTrack: final(self)._videoTrack,
                _audioTrack: final(self)._audioTrack,
                ..*old(self)
            }),
            old(self).wf() ==> final(self).wf(),
    {
        self._mediaInfo = MediaInfo::default();
        self._metadata = None;
        self._audioMetadata = None;
        self._videoMetadata = None;
        self._videoTrack = VideoTrack::new(self._videoTrack.id);
        self._audioTrack = AudioTrack::new(self._audioTrack.id);
        self._lastVideoDimension = None;
    }

    /// Whether initial metadata went out for every track the stream has.
    pub fn _isInitialMetadataDispatched(&self) -> (r: bool)
        ensures
            r == initial_metadata_dispatched(*self),
    {
        if self._hasAudio && self._hasVideo {
            // both audio & video
            return self._audioInitialMetadataDispatched && self._videoInitialMetadataDispatched;
        }
        if self._hasAudio && !self._hasVideo {
            // audio only
            return self._audioInitialMetadataDispatched;
        }
        if !self._hasAudio && self._hasVideo {
            // video only
            return self._videoInitialMetadataDispatched;
        }
        false
    }

    /// Turns the bytes counted since the last call into kilobits per second.
    pub fn _calculateRealtimeBitrate(&mut self)
        ensures
            bitrate_updated(old(self)._bpsInfo, final(self)._bpsInfo),
            *final(self) == (FLVDemuxer { _bpsInfo: final(self)._bpsInfo, ..*old(self) }),
    {
        let next = realtime_bitrate(&self._bpsInfo);
        self._bpsInfo = next;
    }
}

/// `b1` is `b0` after the bitrate was computed from the bytes counted.
pub open spec fn bitrate_updated(b0: BpsInfo, b1: BpsInfo) -> bool {
    let gap = if b0.time_gap_factor < 1 { 1 } else { b0.time_gap_factor as int };
    &&& b1.time_gap_factor == gap
    &&& b1.bps_video == if b0.lastVideoBytes != 0 { kbps(b0.lastVideoBytes as int, gap) } else { b0.bps_video as int }
    &&& b1.bps_audio == if b0.lastAudioBytes != 0 { kbps(b0.lastAudioBytes as int, gap) } else { b0.bps_audio as int }
    &&& b1.lastVideoBytes == 0
    &&& b1.lastAudioBytes == 0
    &&& b1.data_updated_time == b0.data_updated_time
}

fn realtime_bitrate(b: &BpsInfo) -> (r: BpsInfo)
    ensures
        bitrate_updated(*b, r),
{
    let gap: u64 = if b.time_gap_factor < 1 { 1 } else { b.time_gap_factor };
    let bps_video = if b.lastVideoBytes != 0 {
        let v = (8 * (b.lastVideoBytes as u128)) / 1024 / (gap as u128);
        proof {
            let x = b.lastVideoBytes as int;
            assert(v <= x) by (nonlinear_arith)
                requires v == (8 * x) / 1024 / (gap as int), gap >= 1, x >= 0;
        }
        v as usize
    } else {
        b.bps_video
    };
    let bps_audio = if b.lastAudioBytes != 0 {
        let a = (8 * (b.lastAudioBytes as u128)) / 1024 / (gap as u128);
        proof {
            let x = b.lastAudioBytes as int;
            assert(a <= x) by (nonlinear_arith)
                requires a == (8 * x) / 1024 / (gap as int), gap >= 1, x >= 0;
        }
        a as usize
    } else {
        b.bps_audio
    };
    BpsInfo {
        lastVideoBytes: 0,
        lastAudioBytes: 0,
        bps_video,
        bps_audio,
        data_updated_time: b.data_updated_time,
        time_gap_factor: gap,
    }
}

// ---------------------------------------------------------------- video tags

/// Some unit of `refs` is an IDR slice.
pub open spec fn has_idr(refs: Seq<(u8, int, int)>) -> bool {
    exists|i: int| 0 <= i < refs.len() && refs[i].0 == 5
}

/// Total length of the units `refs` locate.
pub open spec fn refs_len(refs: Seq<(u8, int, int)>) -> int
    decreases refs.len(),
{
    if refs.len() == 0 {
        0
    } else {
        refs_len(refs.drop_last()) + refs.last().2
    }
}

/// `s` is the AVC sample made of the units `refs` locate in `buf`.
pub open spec fn avc_sample_is(
    s: VideoSample,
    buf: Seq<u8>,
    refs: Seq<(u8, int, int)>,
    dts: int,
    cts: int,
    frameType: u8,
    tagPosition: u64,
) -> bool {
    let key = frameType == 1 || has_idr(refs);
    &&& units_match(buf, s.units@, refs)
    &&& s.length == units_bytes(s.units@).len()
    &&& s.isKeyframe == key
    &&& s.dts == dts
    &&& s.cts == cts
    &&& s.pts == dts + cts
    &&& s.fileposition == if key { Some(tagPosition) } else { None }
}

/// Room for one more sample of `len` bytes in a track holding `count` samples of `total` bytes.
pub open spec fn track_room(total: int, count: int, len: int) -> bool {
    total + len <= TRACK_LIMIT() && count + 1 <= TRACK_LIMIT()
}

fn any_idr(units: &Vec<Unit>, Ghost(buf): Ghost<Seq<u8>>, Ghost(refs): Ghost<Seq<(u8, int, int)>>) -> (r: bool)
    requires
        units_match(buf, units@, refs),
    ensures
        r == has_idr(refs),
{
    let mut i: usize = 0;
    while i < units.len()
        invariant
            i <= units@.len(),
            units_match(buf, units@, refs),
            forall|k: int| 0 <= k < i ==> refs[k].0 != 5,
        decreases units@.len() - i,
    {
        if units[i]._type == 5 {
            assert(refs[i as int].0 == 5);
            return true;
        }
        i = i + 1;
    }
    false
}

/// What an AVC packet body at `[off, off + size)` does to demuxer `d0`: its NAL units
/// become one more video sample, when they parse, there is at least one, and the track
/// has room.
pub open spec fn avc_data_queued(
    d0: FLVDemuxer,
    d1: FLVDemuxer,
    buf: Seq<u8>,
    off: int,
    size: int,
    tagTimestamp: u32,
    tagPosition: u64,
    frameType: u8,
    cts: int,
) -> bool {
    let refs = spec_nalus(buf, off, size, d0._naluLengthSize as int, 0);
    let t0 = d0._videoTrack;
    let t1 = d1._videoTrack;
    if refs is Some && refs->Some_0.len() > 0 && track_room(t0.length as int, t0.samples@.len() as int, refs_len(refs->Some_0)) {
        &&& t1.samples@.len() == t0.samples@.len() + 1
        &&& t1.samples@.drop_last() == t0.samples@
        &&& avc_sample_is(t1.samples@.last(), buf, refs->Some_0, d0._timestampBase + tagTimestamp, cts, frameType, tagPosition)
        &&& d1 == (FLVDemuxer { _videoTrack: t1, ..d0 })
    } else {
        d1 == d0
    }
}

impl FLVDemuxer {
    /// Queues the NAL units of an AVC packet body as one video sample; a malformed body
    /// or one without units queues nothing.
    pub fn _parseAVCVideoData(
        &mut self,
        arrayBuffer: &[u8],
        dataOffset: usize,
        dataSize: usize,
        tagTimestamp: u32,
        tagPosition: u64,
        frameType: u8,
        cts: i32,
    )
        requires
            old(self).wf(),
            dataOffset + dataSize <= arrayBuffer@.len(),
        ensures
            final(self).wf(),
            avc_data_queued(*old(self), *final(self), arrayBuffer@, dataOffset as int, dataSize as int,
                tagTimestamp, tagPosition, frameType, cts as int),
    {
        let split = split_nalus(arrayBuffer, dataOffset, dataSize, self._naluLengthSize);
        let ghost refs = spec_nalus(arrayBuffer@, dataOffset as int, dataSize as int, self._naluLengthSize as int, 0)->Some_0;
        match split {
            None => {},
            Some((units, length)) => {
                if units.len() == 0 {
                    return;
                }
                proof {
                    lemma_refs_len(arrayBuffer@, units@, refs);
                }
                let limit = usize::MAX / 64;
                if self._videoTrack.length > limit || length > limit - self._videoTrack.length
                    || self._videoTrack.samples.len() >= limit {
                    // a track this large cannot be held
                    return;
                }
                let dts = self._timestampBase + tagTimestamp as i64;
                let keyframe = frameType == 1 || any_idr(&units, Ghost(arrayBuffer@), Ghost(refs));
                let sample = VideoSample {
                    units,
                    length,
                    isKeyframe: keyframe,
                    dts,
                    cts: cts as i64,
                    pts: dts + cts as i64,
                    fileposition: if keyframe { Some(tagPosition) } else { None },
                };
                let ghost t0 = self._videoTrack;
                self._videoTrack.push_sample(sample);
                proof {
                    assert(self._videoTrack.samples@.drop_last() =~= t0.samples@);
                    assert forall|i: int| 0 <= i < self._videoTrack.samples@.len() implies
                        crate::mp4_remuxer::video_sample_ok(#[trigger] self._videoTrack.samples@[i]) by {
                        if i < t0.samples@.len() {
                            assert(self._videoTrack.samples@[i] == t0.samples@[i]);
                        }
                    }
                }
            },
        }
    }
}

/// The length of the units equals that of the refs they match.
proof fn lemma_refs_len(buf: Seq<u8>, units: Seq<Unit>, refs: Seq<(u8, int, int)>)
    requires
        units_match(buf, units, refs),
        refs_in(buf.len() as int, refs),
    ensures
        units_bytes(units).len() == refs_len(refs),
    decreases refs.len(),
{
    if refs.len() > 0 {
        let n = refs.len() - 1;
        assert(units.drop_last().len() == refs.drop_last().len());
        assert forall|i: int| 0 <= i < units.drop_last().len() implies {
            &&& (#[trigger] units.drop_last()[i])._type == refs.drop_last()[i].0
            &&& units.drop_last()[i].data@ == buf.subrange(refs.drop_last()[i].1, refs.drop_last()[i].1 + refs.drop_last()[i].2)
        } by {
            assert(units_match(buf, units, refs));
            assert(units[i]._type == refs[i].0);
        }
        lemma_refs_len(buf, units.drop_last(), refs.drop_last());
        assert(units =~= units.drop_last().push(units[n]));
        lemma_units_bytes_push(units.drop_last(), units[n]);
        assert(units[n].data@ == buf.subrange(refs[n].1, refs[n].1 + refs[n].2));
    } else {
        assert(units.map_values(|u: Unit| u.data@) =~= Seq::<Seq<u8>>::empty());
    }
}

} // verus!
