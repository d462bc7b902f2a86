//! Media information gathered while demuxing.
use vstd::prelude::*;
use crate::amf_parser::AMFProperty;

verus! {

/// A copy of `a`.
pub fn test(a: &[u8]) -> (r: Vec<u8>)
    ensures
        r@ == a@,
{
    let mut v: Vec<u8> = Vec::new();
    crate::bytes::push_all(&mut v, a);
    v
}

/// A byte vector handed out whole.
pub struct TestVec {
    arr: Vec<u8>,
}

impl TestVec {
    /// Wraps `arr`.
    pub fn new(arr: Vec<u8>) -> (r: TestVec)
        ensures
            r.contents() == arr@,
    {
        TestVec { arr }
    }

    pub closed spec fn contents(&self) -> Seq<u8> {
        self.arr@
    }

    /// The bytes.
    pub fn arr(self) -> (r: Vec<u8>)
        ensures
            r@ == self.contents(),
    {
        self.arr
    }
}

/// Times (ms) and byte positions of the keyframes listed in the metadata.
pub struct KeyframesIndex {
    pub times: Vec<i64>,
    pub filepositions: Vec<i64>,
}

pub struct MediaInfo {
    pub mimeType: Option<String>,
    pub duration: Option<i64>,
    pub hasAudio: Option<bool>,
    pub hasVideo: Option<bool>,
    pub audioCodec: Option<String>,
    pub videoCodec: Option<String>,
    pub audioDataRate: Option<i64>,
    pub videoDataRate: Option<i64>,
    pub audioSampleRate: Option<u32>,
    pub audioChannelCount: Option<u32>,
    pub width: Option<i64>,
    pub height: Option<i64>,
    pub fps: Option<u64>,
    pub profile: Option<String>,
    pub level: Option<String>,
    pub refFrames: Option<u32>,
    pub chromaFormat: Option<String>,
    pub sarNum: Option<i64>,
    pub sarDen: Option<i64>,
    pub metadata: Option<Vec<AMFProperty>>,
    pub segments: Option<u32>,
    pub segmentCount: Option<usize>,
    pub hasKeyframesIndex: Option<bool>,
    pub keyframesIndex: Option<KeyframesIndex>,
}

/// Every field is unset.
pub open spec fn media_info_empty(m: &MediaInfo) -> bool {
    &&& m.mimeType is None
    &&& m.duration is None
    &&& m.hasAudio is None
    &&& m.hasVideo is None
    &&& m.audioCodec is None
    &&& m.videoCodec is None
    &&& m.audioDataRate is None
    &&& m.videoDataRate is None
    &&& m.audioSampleRate is None
    &&& m.audioChannelCount is None
    &&& m.width is None
    &&& m.height is None
    &&& m.fps is None
    &&& m.profile is None
    &&& m.level is None
    &&& m.refFrames is None
    &&& m.chromaFormat is None
    &&& m.sarNum is None
    &&& m.sarDen is None
    &&& m.metadata is None
    &&& m.segments is None
    &&& m.segmentCount is None
    &&& m.hasKeyframesIndex is None
    &&& m.keyframesIndex is None
}

/// The audio part is known, or the stream has no audio, or whether it has is unknown.
pub open spec fn audio_info_complete(m: &MediaInfo) -> bool {
    match m.hasAudio {
        None => true,
        Some(h) => h && m.audioCodec is Some && m.audioSampleRate is Some && m.audioChannelCount is Some,
    }
}

/// The video part is known, or the stream has no video, or whether it has is unknown.
pub open spec fn video_info_complete(m: &MediaInfo) -> bool {
    match m.hasVideo {
        None => true,
        Some(h) => h && m.videoCodec is Some && m.width is Some && m.height is Some && m.fps is Some
            && m.profile is Some && m.level is Some && m.refFrames is Some && m.chromaFormat is Some
            && m.sarNum is Some && m.sarDen is Some,
    }
}

pub open spec fn spec_is_complete(m: &MediaInfo) -> bool {
    m.mimeType is Some && m.duration is Some && m.metadata is Some && m.hasKeyframesIndex is Some
        && audio_info_complete(m) && video_info_complete(m)
}

impl Default for MediaInfo {
    fn default() -> (r: MediaInfo)
        ensures
            media_info_empty(&r),
    {
        MediaInfo {
            mimeType: None,
            duration: None,
            hasAudio: None,
            hasVideo: None,
            audioCodec: None,
            videoCodec: None,
            audioDataRate: None,
            videoDataRate: None,
            audioSampleRate: None,
            audioChannelCount: None,
            width: None,
            height: None,
            fps: None,
            profile: None,
            level: None,
            refFrames: None,
            chromaFormat: None,
            sarNum: None,
            sarDen: None,
            metadata: None,
            segments: None,
            segmentCount: None,
            hasKeyframesIndex: None,
            keyframesIndex: None,
        }
    }
}

impl MediaInfo {
    /// Whether everything a player needs is known. The keyframes index may be absent.
    pub fn isComplete(&self) -> (r: bool)
        ensures
            r == spec_is_complete(self),
    {
        let audioInfoComplete = match self.hasAudio {
            None => true,
            Some(hasAudio) => hasAudio && self.audioCodec.is_some() && self.audioSampleRate.is_some()
                && self.audioChannelCount.is_some(),
        };
        let videoInfoComplete = match self.hasVideo {
            None => true,
            Some(hasVideo) => hasVideo && self.videoCodec.is_some() && self.width.is_some()
                && self.height.is_some() && self.fps.is_some() && self.profile.is_some()
                && self.level.is_some() && self.refFrames.is_some() && self.chromaFormat.is_some()
                && self.sarNum.is_some() && self.sarDen.is_some(),
        };
        // keyframesIndex may not be present
        self.mimeType.is_some() && self.duration.is_some() && self.metadata.is_some()
            && self.hasKeyframesIndex.is_some() && audioInfoComplete && videoInfoComplete
    }
}

} // verus!
