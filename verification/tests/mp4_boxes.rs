use flv_mp4::mp4_generator::{
    FragmentTrack, Meta, Mp4Sample, SampleFlags, TrackType, genBox, generateInitSegment, mdat, mfhd,
    moof, mvhd, sdtp, trun,
};

fn be32(b: &[u8], i: usize) -> u32 {
    u32::from_be_bytes([b[i], b[i + 1], b[i + 2], b[i + 3]])
}

fn video_meta() -> Meta {
    Meta {
        id: 1,
        _type: TrackType::Video,
        timescale: 1000,
        duration: 5000,
        presentWidth: 320,
        presentHeight: 240,
        codecWidth: 320,
        codecHeight: 240,
        channelCount: 0,
        audioSampleRate: 0,
        codec: String::from("avc1.42c01e"),
        config: vec![],
        avcc: vec![1, 0x42, 0xC0, 0x1E, 0xFF, 0xE0, 0x00],
    }
}

fn audio_meta(codec: &str) -> Meta {
    Meta {
        id: 2,
        _type: TrackType::Audio,
        timescale: 44100,
        duration: 0,
        presentWidth: 0,
        presentHeight: 0,
        codecWidth: 0,
        codecHeight: 0,
        channelCount: 2,
        audioSampleRate: 44100,
        codec: String::from(codec),
        config: vec![0x12, 0x10],
        avcc: vec![],
    }
}

#[test]
fn box_holds_size_type_and_payload() {
    let a: &[u8] = &[1, 2];
    let b: &[u8] = &[3];
    let r = genBox(b"free", &[a, b]);
    assert_eq!(r, vec![0, 0, 0, 11, b'f', b'r', b'e', b'e', 1, 2, 3]);
}

#[test]
fn empty_box_is_eight_bytes() {
    let r = genBox(b"mvex", &[]);
    assert_eq!(r, vec![0, 0, 0, 8, b'm', b'v', b'e', b'x']);
}

#[test]
fn mdat_wraps_payload() {
    assert_eq!(mdat(&[9, 8, 7]), vec![0, 0, 0, 11, b'm', b'd', b'a', b't', 9, 8, 7]);
}

#[test]
fn mfhd_holds_sequence_number() {
    assert_eq!(mfhd(7), vec![0, 0, 0, 16, b'm', b'f', b'h', b'd', 0, 0, 0, 0, 0, 0, 0, 7]);
}

#[test]
fn mvhd_holds_timescale_and_duration() {
    let r = mvhd(1000, 5000);
    assert_eq!(r.len(), 108);
    assert_eq!(be32(&r, 0), 108);
    assert_eq!(&r[4..8], b"mvhd");
    assert_eq!(be32(&r, 20), 1000);
    assert_eq!(be32(&r, 24), 5000);
}

fn check_boxes(data: &[u8], names: &[&[u8]]) {
    let mut off = 0;
    for name in names {
        let size = be32(data, off) as usize;
        assert_eq!(&data[off + 4..off + 8], *name);
        off += size;
    }
    assert_eq!(off, data.len());
}

#[test]
fn video_init_segment_is_ftyp_then_moov() {
    let r = generateInitSegment(&video_meta());
    assert_eq!(be32(&r, 0), 24);
    assert_eq!(&r[4..8], b"ftyp");
    assert_eq!(&r[8..12], b"isom");
    check_boxes(&r, &[b"ftyp", b"moov"]);
    let moov = &r[24..];
    check_boxes(&moov[8..], &[b"mvhd", b"trak", b"mvex"]);
}

#[test]
fn audio_init_segments_pick_sample_entry() {
    let aac = generateInitSegment(&audio_meta("mp4a.40.2"));
    assert!(aac.windows(4).any(|w| w == b"mp4a"));
    assert!(aac.windows(4).any(|w| w == b"esds"));
    let mp3 = generateInitSegment(&audio_meta("mp3"));
    assert!(mp3.windows(4).any(|w| w == b".mp3"));
    assert!(!mp3.windows(4).any(|w| w == b"esds"));
}

fn sample(dts: i64, duration: i64, size: usize, key: bool) -> Mp4Sample {
    Mp4Sample {
        dts,
        pts: dts,
        cts: 0,
        duration,
        size,
        originalDts: dts,
        isKeyframe: key,
        flags: SampleFlags {
            isLeading: 0,
            dependsOn: if key { 2 } else { 1 },
            isDependedOn: if key { 1 } else { 0 },
            hasRedundancy: 0,
            isNonSync: if key { 0 } else { 1 },
        },
    }
}

#[test]
fn sdtp_has_a_byte_per_sample() {
    let track = FragmentTrack { id: 1, sequenceNumber: 3, samples: vec![sample(0, 40, 10, true), sample(40, 40, 5, false)] };
    let r = sdtp(&track);
    assert_eq!(r.len(), 8 + 4 + 2);
    assert_eq!(&r[4..8], b"sdtp");
    assert_eq!(r[12], (2 << 4) | (1 << 2));
    assert_eq!(r[13], 1 << 4);
}

#[test]
fn trun_lists_sample_duration_and_size() {
    let track = FragmentTrack { id: 1, sequenceNumber: 3, samples: vec![sample(0, 40, 10, true), sample(40, 33, 5, false)] };
    let r = trun(&track, 100);
    assert_eq!(r.len(), 8 + 12 + 16 * 2);
    assert_eq!(&r[4..8], b"trun");
    assert_eq!(be32(&r, 12), 2);
    assert_eq!(be32(&r, 20), 40);
    assert_eq!(be32(&r, 24), 10);
    assert_eq!(be32(&r, 36), 33);
    assert_eq!(be32(&r, 40), 5);
}

#[test]
fn moof_holds_mfhd_and_traf() {
    let track = FragmentTrack { id: 1, sequenceNumber: 3, samples: vec![sample(0, 40, 10, true)] };
    let r = moof(&track, 0);
    assert_eq!(be32(&r, 0) as usize, r.len());
    assert_eq!(&r[4..8], b"moof");
    check_boxes(&r[8..], &[b"mfhd", b"traf"]);
    assert_eq!(be32(&r, 20), 3);
}
