use flv_mp4::flv_codec::BrowserKind;
use flv_mp4::flv_demuxer::{DemuxEvent, FLVDemuxer, probe};
use flv_mp4::amf_parser::AMFProperty;
use flv_mp4::flv_parse::ScriptNumberSource;
use flv_mp4::flv_tags::ScriptNumbers;
use flv_mp4::mp4_generator::TrackType;
use flv_mp4::mp4_remuxer::MP4Remuxer;

/// Numbers of `onMetaData` that a test fixes in advance.
struct Numbers(fn() -> ScriptNumbers);

impl ScriptNumberSource for Numbers {
    fn script_numbers(&self, _metadata: &Vec<AMFProperty>, _timescale: u32) -> ScriptNumbers {
        (self.0)()
    }
}

const SPS: [u8; 8] = [0x67, 0x42, 0xC0, 0x1E, 0xF4, 0x0A, 0x0F, 0xC8];
const PPS: [u8; 4] = [0x68, 0xCE, 0x3C, 0x80];

fn header() -> Vec<u8> {
    vec![b'F', b'L', b'V', 1, 0x05, 0, 0, 0, 9, 0, 0, 0, 0]
}

fn tag(t: u8, ts: u32, body: &[u8]) -> Vec<u8> {
    let n = body.len() as u32;
    let mut v = vec![t, (n >> 16) as u8, (n >> 8) as u8, n as u8];
    v.extend_from_slice(&[(ts >> 16) as u8, (ts >> 8) as u8, ts as u8, (ts >> 24) as u8, 0, 0, 0]);
    v.extend_from_slice(body);
    v.extend_from_slice(&(11 + n).to_be_bytes());
    v
}

fn key(out: &mut Vec<u8>, name: &str) {
    out.extend_from_slice(&(name.len() as u16).to_be_bytes());
    out.extend_from_slice(name.as_bytes());
}

fn metadata_body() -> Vec<u8> {
    let mut v = vec![0x02];
    key(&mut v, "onMetaData");
    v.push(0x08);
    v.extend_from_slice(&3u32.to_be_bytes());
    key(&mut v, "duration");
    v.push(0x00);
    v.extend_from_slice(&5.0f64.to_bits().to_be_bytes());
    key(&mut v, "hasAudio");
    v.extend_from_slice(&[0x01, 0x01]);
    key(&mut v, "hasVideo");
    v.extend_from_slice(&[0x01, 0x01]);
    v.extend_from_slice(&[0x00, 0x00, 0x09]);
    v
}

fn avc_config() -> Vec<u8> {
    let mut v = vec![0x17, 0x00, 0, 0, 0, 0x01, 0x42, 0xC0, 0x1E, 0xFF, 0xE1];
    v.extend_from_slice(&(SPS.len() as u16).to_be_bytes());
    v.extend_from_slice(&SPS);
    v.push(0x01);
    v.extend_from_slice(&(PPS.len() as u16).to_be_bytes());
    v.extend_from_slice(&PPS);
    v
}

fn avc_frame(key_frame: bool, nalu: &[u8]) -> Vec<u8> {
    let mut v = vec![if key_frame { 0x17 } else { 0x27 }, 0x01, 0, 0, 0];
    v.extend_from_slice(&(nalu.len() as u32).to_be_bytes());
    v.extend_from_slice(nalu);
    v
}

fn stream() -> (Vec<u8>, usize) {
    let mut s = header();
    s.extend(tag(18, 0, &metadata_body()));
    let after_metadata = s.len();
    s.extend(tag(8, 0, &[0xAF, 0x00, 0x12, 0x10]));
    s.extend(tag(9, 0, &avc_config()));
    s.extend(tag(9, 0, &avc_frame(true, &[0x65, 1, 2, 3, 4])));
    s.extend(tag(8, 0, &[0xAF, 0x01, 0x21, 0x22, 0x23]));
    s.extend(tag(9, 40, &avc_frame(false, &[0x41, 9, 9])));
    s.extend(tag(8, 23, &[0xAF, 0x01, 0x24, 0x25]));
    s.extend(tag(9, 80, &avc_frame(false, &[0x41, 7])));
    s.extend(tag(8, 46, &[0xAF, 0x01, 0x26]));
    (s, after_metadata)
}

fn no_numbers() -> ScriptNumbers {
    ScriptNumbers {
        audiodatarate: None,
        videodatarate: None,
        width: None,
        height: None,
        duration: Some(5000),
        fps_num: None,
        keyframes: None,
    }
}

#[test]
fn probe_reads_the_flv_header() {
    let p = probe(&header()).unwrap();
    assert_eq!(p.dataOffset, 9);
    assert_eq!(p.consumed, 9);
    assert!(p.hasAudioTrack);
    assert!(p.hasVideoTrack);
    let mut bad = header();
    bad[0] = b'G';
    assert!(probe(&bad).is_none());
    let mut short_offset = header();
    short_offset[8] = 5;
    assert!(probe(&short_offset).is_none());
}

#[test]
fn first_chunk_shorter_than_header_is_not_consumed() {
    let p = probe(&header()).unwrap();
    let mut d = FLVDemuxer::new(&p, BrowserKind::Android);
    let mut r = MP4Remuxer::new(false, true, false);
    let mut events = Vec::new();
    assert_eq!(d.parseChunks(&header(), 0, 0, &Numbers(no_numbers), &mut r, &mut events), 0);
    assert!(events.is_empty());
}

#[test]
fn demuxes_and_remuxes_a_stream() {
    let (s, after_metadata) = stream();
    let p = probe(&s).unwrap();
    let mut d = FLVDemuxer::new(&p, BrowserKind::Android);
    let mut r = MP4Remuxer::new(false, true, false);
    let mut events = Vec::new();

    // every complete tag is taken in one call; the numbers of onMetaData come from the source
    let consumed = d.parseChunks(&s, 0, 1000, &Numbers(no_numbers), &mut r, &mut events);
    assert_eq!(consumed, s.len());
    assert!(events.iter().any(|e| matches!(e, DemuxEvent::ScriptMetadata)));
    assert_eq!(d._mediaInfo.duration, Some(5000));
    assert!(after_metadata < consumed);

    let inits: Vec<TrackType> = events
        .iter()
        .filter_map(|e| match e {
            DemuxEvent::Init(i) => Some(i._type),
            _ => None,
        })
        .collect();
    assert!(inits.contains(&TrackType::Audio));
    assert!(inits.contains(&TrackType::Video));
    assert!(!events.iter().any(|e| matches!(e, DemuxEvent::Error(_))));

    let video: Vec<(usize, i64, Vec<u8>)> = events
        .iter()
        .filter_map(|e| match e {
            DemuxEvent::Media(m) if m._type == TrackType::Video => Some((m.sampleCount, m.info.beginDts, m.data.clone())),
            _ => None,
        })
        .collect();
    assert_eq!(video.len(), 1);
    // the last frame stays behind for the next batch
    assert_eq!(video[0].0, 2);
    assert_eq!(video[0].1, 0);
    assert_eq!(&video[0].2[4..8], b"moof");

    let audio = events.iter().any(|e| matches!(e, DemuxEvent::Media(m) if m._type == TrackType::Audio && m.sampleCount == 2));
    assert!(audio);

    assert_eq!(d._audioTrack.samples.len(), 0);
    assert_eq!(d._videoTrack.samples.len(), 0);
}

#[test]
fn counts_bytes_for_the_bitrate() {
    let (s, _) = stream();
    let p = probe(&s).unwrap();
    let mut d = FLVDemuxer::new(&p, BrowserKind::Android);
    let mut r = MP4Remuxer::new(false, true, false);
    let mut events = Vec::new();
    assert_eq!(d.parseChunks(&s, 0, 1000, &Numbers(no_numbers), &mut r, &mut events), s.len());
    assert_eq!(d._bpsInfo.lastAudioBytes, 4 + 5 + 4 + 3);
    assert_eq!(d._bpsInfo.lastVideoBytes, avc_config().len() + (5 + 4 + 5) + (5 + 4 + 3) + (5 + 4 + 2));
    assert_eq!(d._bpsInfo.data_updated_time, 1000);
    d._calculateRealtimeBitrate();
    assert_eq!(d._bpsInfo.lastVideoBytes, 0);
    assert_eq!(d._bpsInfo.lastAudioBytes, 0);
    assert_eq!(d._bpsInfo.bps_audio, 8 * 16 / 1024);
}

#[test]
fn incomplete_tag_is_left_for_the_next_chunk() {
    let (s, after_metadata) = stream();
    let p = probe(&s).unwrap();
    let mut d = FLVDemuxer::new(&p, BrowserKind::Android);
    let mut r = MP4Remuxer::new(false, true, false);
    let mut events = Vec::new();
    let consumed = d.parseChunks(&s[..after_metadata], 0, 0, &Numbers(no_numbers), &mut r, &mut events);
    assert_eq!(consumed, after_metadata);
    // hand in the audio configuration tag without its last byte
    let audio_tag_len = tag(8, 0, &[0xAF, 0x00, 0x12, 0x10]).len();
    let part = &s[consumed..consumed + audio_tag_len - 1];
    assert_eq!(d.parseChunks(part, after_metadata, 0, &Numbers(no_numbers), &mut r, &mut events), 0);
    let whole = &s[consumed..consumed + audio_tag_len];
    assert_eq!(d.parseChunks(whole, after_metadata, 0, &Numbers(no_numbers), &mut r, &mut events), audio_tag_len);
}

#[test]
fn unknown_tag_types_are_skipped() {
    let p = probe(&header()).unwrap();
    let mut d = FLVDemuxer::new(&p, BrowserKind::Android);
    let mut r = MP4Remuxer::new(false, true, false);
    let mut events = Vec::new();
    let mut s = header();
    s.extend(tag(7, 0, &[1, 2, 3]));
    assert_eq!(d.parseChunks(&s, 0, 0, &Numbers(no_numbers), &mut r, &mut events), s.len());
    assert!(events.is_empty());
}

#[test]
fn video_fragments_follow_each_other() {
    let (s, _) = stream();
    let p = probe(&s).unwrap();
    let mut d = FLVDemuxer::new(&p, BrowserKind::Android);
    let mut r = MP4Remuxer::new(false, true, false);
    let mut events = Vec::new();
    assert_eq!(d.parseChunks(&s, 0, 0, &Numbers(no_numbers), &mut r, &mut events), s.len());
    let mut more = tag(9, 120, &avc_frame(false, &[0x41, 5]));
    more.extend(tag(9, 160, &avc_frame(true, &[0x65, 6])));
    d.parseChunks(&more, s.len(), 0, &Numbers(no_numbers), &mut r, &mut events);
    let video: Vec<(i64, i64, usize)> = events
        .iter()
        .filter_map(|e| match e {
            DemuxEvent::Media(m) if m._type == TrackType::Video => Some((m.info.beginDts, m.info.endDts, m.sampleCount)),
            _ => None,
        })
        .collect();
    assert_eq!(video.len(), 2);
    assert_eq!(video[0], (0, 80, 2));
    assert_eq!(video[1].0, video[0].1);
    assert_eq!(video[1], (80, 160, 2));
}

#[test]
fn aac_fragments_follow_each_other() {
    let (s, _) = stream();
    let p = probe(&s).unwrap();
    let mut d = FLVDemuxer::new(&p, BrowserKind::Android);
    let mut r = MP4Remuxer::new(false, true, false);
    let mut events = Vec::new();
    assert_eq!(d.parseChunks(&s, 0, 0, &Numbers(no_numbers), &mut r, &mut events), s.len());
    let mut more = tag(8, 69, &[0xAF, 0x01, 0x31]);
    more.extend(tag(8, 92, &[0xAF, 0x01, 0x32]));
    d.parseChunks(&more, s.len(), 0, &Numbers(no_numbers), &mut r, &mut events);
    let audio: Vec<(i64, i64, usize)> = events
        .iter()
        .filter_map(|e| match e {
            DemuxEvent::Media(m) if m._type == TrackType::Audio => Some((m.info.beginDts, m.info.endDts, m.sampleCount)),
            _ => None,
        })
        .collect();
    assert_eq!(audio.len(), 2);
    // frames of 1024 samples at 44100 Hz last 23.2 ms: 0, 23, then 46
    assert_eq!(audio[0], (0, 46, 2));
    assert_eq!(audio[1].0, audio[0].1);
}

#[test]
fn flushing_sends_the_stashed_samples() {
    let (s, _) = stream();
    let p = probe(&s).unwrap();
    let mut d = FLVDemuxer::new(&p, BrowserKind::Android);
    let mut r = MP4Remuxer::new(false, true, false);
    let mut events = Vec::new();
    assert_eq!(d.parseChunks(&s, 0, 0, &Numbers(no_numbers), &mut r, &mut events), s.len());
    let (audio, video) = r.flushStashedSamples();
    let v = video.unwrap();
    assert_eq!(v.sampleCount, 1);
    assert_eq!(v.info.beginDts, 80);
    let a = audio.unwrap();
    assert_eq!(a.sampleCount, 1);
    assert_eq!(a.info.beginDts, 46);
    let (audio2, video2) = r.flushStashedSamples();
    assert!(audio2.is_none());
    assert!(video2.is_none());
}

#[test]
fn discontinuity_and_seek_reset_the_timeline() {
    let mut r = MP4Remuxer::new(false, true, false);
    r.insertDiscontinuity();
    assert!(r._audioNextDts.is_none() && r._videoNextDts.is_none());
    r.seek(1000);
    assert_eq!(r._videoSegmentInfoList.length(), 0);
    r.destroy();
    assert!(!r._dtsBaseInited);
    assert_eq!(r._audioSegmentInfoList.getType(), "audio");
}

#[test]
fn keyframes_index_skips_the_first_entry() {
    let p = probe(&header()).unwrap();
    let d = FLVDemuxer::new(&p, BrowserKind::Other);
    let k = d._parseKeyframesIndex(&vec![0, 2000, 4000], &vec![13, 500, 900]).unwrap();
    assert_eq!(k.times, vec![2000, 4000]);
    assert_eq!(k.filepositions, vec![500, 900]);
    assert!(d._parseKeyframesIndex(&vec![0, 2000, 4000], &vec![13]).is_err());
    let empty = d._parseKeyframesIndex(&vec![0], &vec![]).unwrap();
    assert!(empty.times.is_empty());
}

fn some_numbers() -> ScriptNumbers {
    ScriptNumbers {
        audiodatarate: Some(128),
        videodatarate: Some(800),
        width: Some(320),
        height: Some(240),
        duration: None,
        fps_num: Some(25000),
        keyframes: None,
    }
}

#[test]
fn metadata_numbers_are_applied() {
    let (s, after_metadata) = stream();
    let p = probe(&s).unwrap();
    let mut d = FLVDemuxer::new(&p, BrowserKind::Android);
    let mut r = MP4Remuxer::new(false, true, false);
    let mut events = Vec::new();
    let consumed = d.parseChunks(&s[..after_metadata], 0, 0, &Numbers(some_numbers), &mut r, &mut events);
    assert_eq!(consumed, after_metadata);
    assert_eq!(d._mediaInfo.hasAudio, Some(true));
    assert_eq!(d._mediaInfo.hasVideo, Some(true));
    assert_eq!(d._mediaInfo.width, Some(320));
    assert_eq!(d._mediaInfo.videoDataRate, Some(800));
    assert_eq!(d._mediaInfo.duration, Some(0));
    assert_eq!(d._mediaInfo.fps, Some(25));
    assert_eq!(d._referenceFrameRate.fps_num, 25000);
    assert_eq!(d._mediaInfo.hasKeyframesIndex, Some(false));
    assert!(!d._mediaInfo.isComplete());
}

fn avc_frame_cts(key_frame: bool, cts: i32, nalu: &[u8]) -> Vec<u8> {
    let c = (cts as u32) & 0xFF_FFFF;
    let mut v = vec![if key_frame { 0x17 } else { 0x27 }, 0x01, (c >> 16) as u8, (c >> 8) as u8, c as u8];
    v.extend_from_slice(&(nalu.len() as u32).to_be_bytes());
    v.extend_from_slice(nalu);
    v
}

#[test]
fn composition_time_offsets_are_signed() {
    let mut s = header();
    s.extend(tag(18, 0, &metadata_body()));
    s.extend(tag(8, 0, &[0xAF, 0x00, 0x12, 0x10]));
    s.extend(tag(9, 0, &avc_config()));
    s.extend(tag(9, 40, &avc_frame_cts(true, 80, &[0x65, 1])));
    s.extend(tag(9, 80, &avc_frame_cts(false, -40, &[0x41, 2])));
    s.extend(tag(9, 120, &avc_frame_cts(false, 0, &[0x41, 3])));
    let p = probe(&s).unwrap();
    let mut d = FLVDemuxer::new(&p, BrowserKind::Android);
    let mut r = MP4Remuxer::new(false, true, false);
    let mut events = Vec::new();
    assert_eq!(d.parseChunks(&s, 0, 0, &Numbers(no_numbers), &mut r, &mut events), s.len());
    let seg = events
        .iter()
        .find_map(|e| match e {
            DemuxEvent::Media(m) if m._type == TrackType::Video => Some(m),
            _ => None,
        })
        .unwrap();
    // the dts base is the first video dts (no audio sample came)
    assert_eq!(seg.info.beginDts, 0);
    assert_eq!(seg.info.beginPts, 80);
    assert_eq!(seg.info.endDts, 80);
    // the second sample: dts 40, pts 0
    assert_eq!(seg.info.endPts, 0 + 40);
}

fn mdat_payload(data: &[u8]) -> Vec<u8> {
    let mut off = 0;
    loop {
        let size = u32::from_be_bytes([data[off], data[off + 1], data[off + 2], data[off + 3]]) as usize;
        if &data[off + 4..off + 8] == b"mdat" {
            return data[off + 8..off + size].to_vec();
        }
        off += size;
    }
}

fn unit(nalu: &[u8]) -> Vec<u8> {
    let mut v = (nalu.len() as u32).to_be_bytes().to_vec();
    v.extend_from_slice(nalu);
    v
}

#[test]
fn video_samples_are_kept_in_order() {
    let (s, _) = stream();
    let p = probe(&s).unwrap();
    let mut d = FLVDemuxer::new(&p, BrowserKind::Android);
    let mut r = MP4Remuxer::new(false, true, false);
    let mut events = Vec::new();
    assert_eq!(d.parseChunks(&s, 0, 0, &Numbers(no_numbers), &mut r, &mut events), s.len());
    let mut more = tag(9, 120, &avc_frame(false, &[0x41, 5]));
    more.extend(tag(9, 160, &avc_frame(true, &[0x65, 6])));
    d.parseChunks(&more, s.len(), 0, &Numbers(no_numbers), &mut r, &mut events);
    let payloads: Vec<u8> = events
        .iter()
        .filter_map(|e| match e {
            DemuxEvent::Media(m) if m._type == TrackType::Video => Some(mdat_payload(&m.data)),
            _ => None,
        })
        .flatten()
        .collect();
    let mut expected = unit(&[0x65, 1, 2, 3, 4]);
    expected.extend(unit(&[0x41, 9, 9]));
    expected.extend(unit(&[0x41, 7]));
    expected.extend(unit(&[0x41, 5]));
    assert_eq!(payloads, expected);
}

#[test]
fn aac_packets_of_other_types_are_queued_as_frames() {
    let mut s = header();
    s.extend(tag(8, 0, &[0xAF, 0x00, 0x12, 0x10]));
    s.extend(tag(8, 23, &[0xAF, 0x02, 0x31, 0x32]));
    let p = probe(&s).unwrap();
    let mut d = FLVDemuxer::new(&p, BrowserKind::Android);
    let mut r = MP4Remuxer::new(false, true, false);
    let mut events = Vec::new();
    assert_eq!(d.parseChunks(&s, 0, 0, &Numbers(no_numbers), &mut r, &mut events), s.len());
    assert_eq!(d._audioTrack.samples.len(), 1);
    assert_eq!(d._audioTrack.samples[0].unit, vec![0x31, 0x32]);
    assert_eq!(d._audioTrack.samples[0].dts, 23);
    assert_eq!(d._audioTrack.samples[0].pts, 23);
    assert_eq!(d._audioTrack.length, 2);
}
