use flv_mp4::flv_codec::{BrowserKind, DemuxError, _parseAACAudioSpecificConfig, parse_mp3_header};

#[test]
fn aac_lc_stereo_for_android() {
    let c = _parseAACAudioSpecificConfig(&[0x12, 0x10], 0, 2, BrowserKind::Android).unwrap();
    assert_eq!(c.config, vec![0x12, 0x10]);
    assert_eq!(c.samplingRate, 44100);
    assert_eq!(c.channelCount, 2);
    assert_eq!(c.codec, "mp4a.40.2");
    assert_eq!(c.originalCodec, "mp4a.40.2");
}

#[test]
fn aac_becomes_he_aac_for_other_browsers() {
    let c = _parseAACAudioSpecificConfig(&[0x12, 0x10], 0, 2, BrowserKind::Other).unwrap();
    assert_eq!(c.config, vec![0x2A, 0x12, 0x08, 0x00]);
    assert_eq!(c.codec, "mp4a.40.5");
    assert_eq!(c.originalCodec, "mp4a.40.2");
}

#[test]
fn firefox_uses_he_aac_below_24khz() {
    // AAC LC, 22050 Hz (index 7), stereo
    let c = _parseAACAudioSpecificConfig(&[0x13, 0x90], 0, 2, BrowserKind::Firefox).unwrap();
    assert_eq!(c.samplingRate, 22050);
    assert_eq!(c.codec, "mp4a.40.5");
    assert_eq!(c.config.len(), 4);
    let d = _parseAACAudioSpecificConfig(&[0x12, 0x10], 0, 2, BrowserKind::Firefox).unwrap();
    assert_eq!(d.codec, "mp4a.40.2");
    assert_eq!(d.config, vec![0x12, 0x10]);
}

#[test]
fn aac_bad_sampling_index_and_channels() {
    // sampling index 13
    assert_eq!(
        _parseAACAudioSpecificConfig(&[0x16, 0x90], 0, 2, BrowserKind::Other).err(),
        Some(DemuxError::AacInvalidSamplingIndex)
    );
    // channel configuration 8
    assert_eq!(
        _parseAACAudioSpecificConfig(&[0x12, 0x40], 0, 2, BrowserKind::Other).err(),
        Some(DemuxError::AacInvalidChannelConfig)
    );
}

#[test]
fn mp3_frame_header() {
    // MPEG-1 layer III, 128 kbit/s, 44100 Hz, joint stereo
    let c = parse_mp3_header(&[0xFF, 0xFB, 0x90, 0x44], 0, 4).unwrap();
    assert_eq!(c.samplingRate, 44100);
    assert_eq!(c.bitRate, 128);
    assert_eq!(c.channelCount, 2);
    assert_eq!(c.codec, "mp3");
    assert!(parse_mp3_header(&[0x00, 0xFB, 0x90, 0x44], 0, 4).is_none());
}

#[test]
fn codec_errors_are_classified() {
    assert!(DemuxError::UnsupportedAudioCodec(7).isCodecUnsupported());
    assert!(!DemuxError::NoSps.isCodecUnsupported());
}
