use flv_mp4::amf_parser::{AMFProperty, findProperty};
use flv_mp4::flv_parse::ScriptNumberSource;
use flv_mp4::flv_codec::{BrowserKind, DemuxError};
use flv_mp4::flv_demuxer::{DemuxEvent, FLVDemuxer, probe};
use flv_mp4::flv_tags::ScriptNumbers;
use flv_mp4::mp4_remuxer::MP4Remuxer;

/// Numbers of `onMetaData` that a test fixes in advance.
struct Numbers(fn() -> ScriptNumbers);

impl ScriptNumberSource for Numbers {
    fn script_numbers(&self, _metadata: &Vec<AMFProperty>, _timescale: u32) -> ScriptNumbers {
        (self.0)()
    }
}

fn no_numbers() -> ScriptNumbers {
    ScriptNumbers {
        audiodatarate: None,
        videodatarate: None,
        width: None,
        height: None,
        duration: None,
        fps_num: None,
        keyframes: None,
    }
}

fn tag(t: u8, body: &[u8]) -> Vec<u8> {
    let n = body.len() as u32;
    let mut v = vec![t, (n >> 16) as u8, (n >> 8) as u8, n as u8, 0, 0, 0, 0, 0, 0, 0];
    v.extend_from_slice(body);
    v.extend_from_slice(&(11 + n).to_be_bytes());
    v
}

/// The events of a stream made of the FLV header and the tag `t` with `body`.
fn events_of(t: u8, body: &[u8]) -> Vec<DemuxEvent> {
    let mut s = vec![b'F', b'L', b'V', 1, 0x05, 0, 0, 0, 9, 0, 0, 0, 0];
    s.extend(tag(t, body));
    let p = probe(&s).unwrap();
    let mut d = FLVDemuxer::new(&p, BrowserKind::Other);
    let mut r = MP4Remuxer::new(false, true, false);
    let mut events = Vec::new();
    assert_eq!(d.parseChunks(&s, 0, 0, &Numbers(no_numbers), &mut r, &mut events), s.len());
    events
}

fn error_of(t: u8, body: &[u8]) -> Option<DemuxError> {
    events_of(t, body).iter().find_map(|e| match e {
        DemuxEvent::Error(x) => Some(*x),
        _ => None,
    })
}

#[test]
fn unsupported_audio_codec() {
    assert_eq!(error_of(8, &[0x3F, 0x00]), Some(DemuxError::UnsupportedAudioCodec(3)));
}

#[test]
fn unsupported_video_codec() {
    assert_eq!(error_of(9, &[0x12, 0x00]), Some(DemuxError::UnsupportedVideoCodec(2)));
}

#[test]
fn invalid_video_packet_type() {
    assert_eq!(error_of(9, &[0x17, 0x03, 0, 0, 0]), Some(DemuxError::InvalidVideoPacketType(3)));
}

fn avc_config(record: &[u8]) -> Vec<u8> {
    let mut v = vec![0x17, 0x00, 0, 0, 0];
    v.extend_from_slice(record);
    v
}

#[test]
fn bad_avc_config_version() {
    let body = avc_config(&[0x02, 0x42, 0xC0, 0x1E, 0xFF, 0xE1, 0x00]);
    assert_eq!(error_of(9, &body), Some(DemuxError::InvalidAvcConfigRecord));
}

#[test]
fn strange_nalu_length_size() {
    let body = avc_config(&[0x01, 0x42, 0xC0, 0x1E, 0xFC, 0xE1, 0x00]);
    assert_eq!(error_of(9, &body), Some(DemuxError::StrangeNaluLengthSize(0)));
}

#[test]
fn avc_config_without_sps() {
    let body = avc_config(&[0x01, 0x42, 0xC0, 0x1E, 0xFF, 0xE0, 0x00]);
    assert_eq!(error_of(9, &body), Some(DemuxError::NoSps));
}

const SPS: [u8; 8] = [0x67, 0x42, 0xC0, 0x1E, 0xF4, 0x0A, 0x0F, 0xC8];

#[test]
fn avc_config_without_pps() {
    let mut record = vec![0x01, 0x42, 0xC0, 0x1E, 0xFF, 0xE1, 0x00, 0x08];
    record.extend_from_slice(&SPS);
    record.push(0x00);
    assert_eq!(error_of(9, &avc_config(&record)), Some(DemuxError::NoPps));
}

#[test]
fn truncated_avc_config() {
    let mut record = vec![0x01, 0x42, 0xC0, 0x1E, 0xFF, 0xE1, 0x00, 0x20];
    record.extend_from_slice(&SPS);
    assert_eq!(error_of(9, &avc_config(&record)), Some(DemuxError::TruncatedAvcConfigRecord));
}

#[test]
fn truncated_script_data() {
    assert_eq!(error_of(18, &[0x02, 0x00, 0x0A, b'o', b'n']), Some(DemuxError::TruncatedScriptData));
}

#[test]
fn bad_aac_configuration() {
    // AAC sequence header with sampling index 13
    assert_eq!(error_of(8, &[0xAF, 0x00, 0x16, 0x90]), Some(DemuxError::AacInvalidSamplingIndex));
}

fn key(out: &mut Vec<u8>, name: &str) {
    out.extend_from_slice(&(name.len() as u16).to_be_bytes());
    out.extend_from_slice(name.as_bytes());
}

#[test]
fn keyframes_without_an_index() {
    let mut body = vec![0x02];
    key(&mut body, "onMetaData");
    body.push(0x08);
    body.extend_from_slice(&1u32.to_be_bytes());
    key(&mut body, "keyframes");
    body.push(0x03);
    key(&mut body, "times");
    body.push(0x0A);
    body.extend_from_slice(&0u32.to_be_bytes());
    body.extend_from_slice(&[0x00, 0x00, 0x09]);
    body.extend_from_slice(&[0x00, 0x00, 0x09]);
    let mut s = vec![b'F', b'L', b'V', 1, 0x05, 0, 0, 0, 9, 0, 0, 0, 0];
    s.extend(tag(18, &body));
    let p = probe(&s).unwrap();
    let mut d = FLVDemuxer::new(&p, BrowserKind::Other);
    let mut r = MP4Remuxer::new(false, true, false);
    let mut events = Vec::new();
    assert_eq!(d.parseChunks(&s, 0, 0, &Numbers(no_numbers), &mut r, &mut events), s.len());
    assert!(events.iter().any(|e| matches!(e, DemuxEvent::ScriptMetadata)));
    assert!(events.iter().any(|e| matches!(e, DemuxEvent::Error(DemuxError::KeyframesFormat))));
    assert_eq!(d._mediaInfo.hasKeyframesIndex, Some(true));
    // the metadata no longer holds the keyframes once the index was taken
    let metadata = d._mediaInfo.metadata.as_ref().unwrap();
    assert!(findProperty(metadata, b"keyframes").is_none());
}

/// The demuxer and events after a stream of the FLV header and the tags `tags`.
fn demux_tags(tags: &[Vec<u8>]) -> (FLVDemuxer, Vec<DemuxEvent>) {
    let mut s = vec![b'F', b'L', b'V', 1, 0x05, 0, 0, 0, 9, 0, 0, 0, 0];
    for t in tags {
        s.extend(tag(9, t));
    }
    let p = probe(&s).unwrap();
    let mut d = FLVDemuxer::new(&p, BrowserKind::Other);
    let mut r = MP4Remuxer::new(false, true, false);
    let mut events = Vec::new();
    assert_eq!(d.parseChunks(&s, 0, 0, &Numbers(no_numbers), &mut r, &mut events), s.len());
    (d, events)
}

fn good_record() -> Vec<u8> {
    let mut record = vec![0x01, 0x42, 0xC0, 0x1E, 0xFF, 0xE1, 0x00, 0x08];
    record.extend_from_slice(&SPS);
    record.extend_from_slice(&[0x01, 0x00, 0x02, 0x68, 0xCE]);
    record
}

#[test]
fn truncated_later_sps_keeps_the_first() {
    // two SPS: the first is whole, the length of the second runs past the record
    let mut record = vec![0x01, 0x42, 0xC0, 0x1E, 0xFF, 0xE2, 0x00, 0x08];
    record.extend_from_slice(&SPS);
    record.extend_from_slice(&[0x00, 0x20, 0x67]);
    let (d, events) = demux_tags(&[avc_config(&record)]);
    assert!(matches!(events.last(), Some(DemuxEvent::Error(DemuxError::TruncatedAvcConfigRecord))));
    assert!(!events.iter().any(|e| matches!(e, DemuxEvent::Init(_))));
    let m = d._videoMetadata.as_ref().unwrap();
    assert_eq!(m.meta.codecWidth, 320);
    assert_eq!(m.meta.codecHeight, 240);
    assert!(m.meta.avcc.is_empty());
    assert_eq!(d._mediaInfo.width, Some(320));
    let last = d._lastVideoDimension.as_ref().unwrap();
    assert_eq!((last.width, last.height), (320, 240));
}

#[test]
fn broken_first_sps_changes_nothing_but_the_start() {
    // the only SPS is shorter than its four header bytes
    let record = vec![0x01, 0x42, 0xC0, 0x1E, 0xFF, 0xE1, 0x00, 0x02, 0x67, 0x42, 0x01, 0x00, 0x02, 0x68, 0xCE];
    let (d, events) = demux_tags(&[avc_config(&record)]);
    assert!(matches!(events.last(), Some(DemuxEvent::Error(DemuxError::TruncatedAvcConfigRecord))));
    assert!(!events.iter().any(|e| matches!(e, DemuxEvent::Init(_) | DemuxEvent::MediaInfo)));
    let m = d._videoMetadata.as_ref().unwrap();
    assert_eq!(m.meta.codecWidth, 0);
    assert!(m.meta.codec.is_empty());
    assert!(d._lastVideoDimension.is_none());
    assert_eq!(d._mediaInfo.width, None);
    assert!(d._hasVideo);
    assert_eq!(d._naluLengthSize, 4);
}

#[test]
fn repeated_avc_config_is_dropped_silently() {
    let (_, once) = demux_tags(&[avc_config(&good_record())]);
    let (d, twice) = demux_tags(&[avc_config(&good_record()), avc_config(&good_record())]);
    assert_eq!(once.len(), twice.len());
    assert!(matches!(twice.last(), Some(DemuxEvent::Init(_))));
    assert_eq!(d._videoMetadata.as_ref().unwrap().meta.avcc, good_record());
}
