use flv_mp4::sps_parser::{_ebsp2rbsp, getChromaFormatString, getLevelString, getProfileString, parseSPS};
use flv_mp4::flv_tags::avc1_codec_string;

// Baseline profile, level 3.0, 320x240, one reference frame, no VUI.
const SPS: [u8; 8] = [0x67, 0x42, 0xC0, 0x1E, 0xF4, 0x0A, 0x0F, 0xC8];

#[test]
fn parses_a_baseline_sps() {
    let info = parseSPS(&SPS).unwrap();
    assert_eq!(info.profile_string, "Baseline");
    assert_eq!(info.level_string, "3.0");
    assert_eq!(info.bit_depth, 8);
    assert_eq!(info.ref_frames, 1);
    assert_eq!(info.chroma_format, 420);
    assert_eq!(info.chroma_format_string, "4:2:0");
    assert_eq!(info.codec_size.width, 320);
    assert_eq!(info.codec_size.height, 240);
    assert_eq!(info.present_size.width, 320);
    assert_eq!(info.present_size.height, 240);
    assert_eq!(info.sar_ratio.width, 1);
    assert_eq!(info.sar_ratio.height, 1);
    assert!(info.frame_rate.fixed);
    assert_eq!(info.frame_rate.fps, 0);
}

#[test]
fn truncated_sps_is_an_error() {
    assert!(parseSPS(&SPS[..5]).is_err());
}

#[test]
fn emulation_prevention_bytes_are_dropped() {
    assert_eq!(_ebsp2rbsp(&[0x00, 0x00, 0x03, 0x01, 0x00, 0x00, 0x03]), vec![0x00, 0x00, 0x01, 0x00, 0x00]);
    assert_eq!(_ebsp2rbsp(&[0x01, 0x03, 0x00]), vec![0x01, 0x03, 0x00]);
}

#[test]
fn profile_level_and_chroma_names() {
    assert_eq!(getProfileString(66), "Baseline");
    assert_eq!(getProfileString(77), "Main");
    assert_eq!(getProfileString(100), "High");
    assert_eq!(getProfileString(1), "Unknown");
    assert_eq!(getLevelString(31), "3.1");
    assert_eq!(getLevelString(40), "4.0");
    assert_eq!(getLevelString(1234), "123.4");
    assert_eq!(getChromaFormatString(422), "4:2:2");
    assert_eq!(getChromaFormatString(7), "Unknown");
}

#[test]
fn codec_string_is_lowercase_hex_without_leading_zeros() {
    assert_eq!(avc1_codec_string(&SPS), "avc1.42c01e");
    assert_eq!(avc1_codec_string(&[0x67, 0x64, 0x00, 0x0A]), "avc1.640a");
}

#[test]
fn sps_strings_name_the_unescaped_bytes() {
    let rb = _ebsp2rbsp(&SPS);
    let info = parseSPS(&SPS).unwrap();
    assert_eq!(info.profile_string, getProfileString(rb[1] as u32));
    assert_eq!(info.level_string, getLevelString(rb[3] as u32));
    assert_eq!(info.chroma_format_string, getChromaFormatString(info.chroma_format));
    assert_eq!(info.present_size.height, info.codec_size.height);
}
