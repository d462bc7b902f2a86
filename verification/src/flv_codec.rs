//! Codec configuration carried in FLV audio and video tags.
use vstd::prelude::*;
use vstd::string::StringExecFns;
use crate::bytes::{be16_at, be32_at, read_be_u16, read_be_u32};
use crate::sps_parser::{dec_string, push_decimal};

verus! {

/// Which browser family the AAC configuration is rewritten for.
#[derive(Clone, Copy, PartialEq, Eq, Structural, Debug)]
pub enum BrowserKind {
    Firefox,
    Android,
    Other,
}

/// Byte `i` of the field `[off, off + size)` of `buf`; 0 past the field.
pub open spec fn byte_or_zero(buf: Seq<u8>, off: int, size: int, i: int) -> u8 {
    if 0 <= i < size && 0 <= off + i < buf.len() { buf[off + i] } else { 0 }
}

fn get_byte(buf: &[u8], off: usize, size: usize, i: usize) -> (r: u8)
    ensures
        r == byte_or_zero(buf@, off as int, size as int, i as int),
{
    if i < size && off <= buf.len() && i < buf.len() - off {
        buf[off + i]
    } else {
        0
    }
}

pub open spec fn MPEG_SAMPLING_RATES() -> Seq<u32> {
    seq![96000u32, 88200, 64000, 48000, 44100, 32000, 24000, 22050, 16000, 12000, 11025, 8000, 7350]
}

/// Audio track configuration found in an audio tag.
pub struct AudioConfig {
    pub config: Vec<u8>,
    pub bitRate: i32,
    pub samplingRate: u32,
    pub channelCount: u32,
    pub codec: String,
    pub originalCodec: String,
}

/// Why a tag could not be used.
#[derive(Clone, Copy, PartialEq, Eq, Structural, Debug)]
pub enum DemuxError {
    /// "Flv: Unsupported audio codec idx: {0}"
    UnsupportedAudioCodec(u8),
    /// "Flv: Unsupported codec in video frame: {0}"
    UnsupportedVideoCodec(u8),
    /// "Flv: AAC invalid sampling frequency index!"
    AacInvalidSamplingIndex,
    /// "Flv: AAC invalid channel configuration"
    AacInvalidChannelConfig,
    /// "Flv: Invalid AVCDecoderConfigurationRecord"
    InvalidAvcConfigRecord,
    /// "Flv: Strange NaluLengthSizeMinusOne: {0}"
    StrangeNaluLengthSize(u8),
    /// "Flv: Invalid AVCDecoderConfigurationRecord: No SPS"
    NoSps,
    /// "Flv: Invalid AVCDecoderConfigurationRecord: No PPS"
    NoPps,
    /// "Flv: Invalid video packet type {0}"
    InvalidVideoPacketType(u8),
    /// An AVCDecoderConfigurationRecord or SPS shorter than what it announces.
    TruncatedAvcConfigRecord,
    /// Script data shorter than what it announces.
    TruncatedScriptData,
    /// "flv amf keyframes format error"
    KeyframesFormat,
}

impl DemuxError {
    /// Whether the error is reported as an unsupported codec (else as a format error).
    pub fn isCodecUnsupported(&self) -> (r: bool)
        ensures
            r == (self is UnsupportedAudioCodec || self is UnsupportedVideoCodec),
    {
        match self {
            DemuxError::UnsupportedAudioCodec(_) => true,
            DemuxError::UnsupportedVideoCodec(_) => true,
            _ => false,
        }
    }
}

/// `"mp4a.40."` and the object type.
pub open spec fn mp4a_codec(aot: nat) -> Seq<char> {
    seq!['m', 'p', '4', 'a', '.', '4', '0', '.'] + dec_string(aot)
}

/// Audio object type, extension sampling index and config length chosen for a browser.
pub open spec fn aac_profile_for(browser: BrowserKind, si: nat, ch: nat) -> (nat, nat, nat) {
    match browser {
        BrowserKind::Firefox => if si >= 6 { (5, (si - 3) as nat, 4) } else { (2, si, 2) },
        BrowserKind::Android => (2, si, 2),
        BrowserKind::Other => if si >= 6 {
            (5, (si - 3) as nat, 4)
        } else if ch == 1 {
            (2, si, 4)
        } else {
            (5, si, 4)
        },
    }
}

/// The AudioSpecificConfig written for the chosen profile.
pub open spec fn aac_config_bytes(aot: nat, si: nat, ch: nat, ext: nat, len: nat) -> Seq<u8> {
    let c0 = ((aot * 8 + (si % 16) / 2) % 256) as u8;
    let c1_base = ((((si % 16) * 128) + ((ch % 16) * 8)) % 256) as nat;
    if aot == 5 {
        seq![c0, ((c1_base + (ext % 16) / 2) % 256) as u8, (((ext % 2) * 128 + 8) % 256) as u8, 0u8]
    } else if len == 4 {
        seq![c0, c1_base as u8, 0u8, 0u8]
    } else {
        seq![c0, c1_base as u8]
    }
}

/// The AAC AudioSpecificConfig at `[off, off + size)`, rewritten for `browser`.
pub open spec fn spec_aac_config(buf: Seq<u8>, off: int, size: int, browser: BrowserKind) -> Result<(Seq<u8>, u32, nat, nat, nat), DemuxError> {
    let a0 = byte_or_zero(buf, off, size, 0);
    let a1 = byte_or_zero(buf, off, size, 1);
    let aot0 = (a0 / 8) as nat;
    let si = ((a0 % 8) * 2 + a1 / 128) as nat;
    let ch = ((a1 % 128) / 8) as nat;
    if si >= 13 {
        Err(DemuxError::AacInvalidSamplingIndex)
    } else if ch >= 8 {
        Err(DemuxError::AacInvalidChannelConfig)
    } else {
        let p = aac_profile_for(browser, si, ch);
        Ok((aac_config_bytes(p.0, si, ch, p.1, p.2), MPEG_SAMPLING_RATES()[si as int], ch, p.0, aot0))
    }
}

/// A parsed AAC configuration has at most four bytes, a rate from the table and fewer
/// than eight channels.
pub proof fn lemma_aac_config_bounds(buf: Seq<u8>, off: int, size: int, browser: BrowserKind)
    ensures
        spec_aac_config(buf, off, size, browser) matches Ok(r) ==> r.0.len() <= 4 && 7350 <= r.1 <= 96000 && r.2 < 8,
{
    let a0 = byte_or_zero(buf, off, size, 0);
    let a1 = byte_or_zero(buf, off, size, 1);
    let si = ((a0 % 8) * 2 + a1 / 128) as nat;
    if si < 13 {
        let t = MPEG_SAMPLING_RATES();
        assert(7350 <= t[si as int] <= 96000);
    }
}

/// An AudioSpecificConfig (ISO/IEC 14496-3 1.6.2.1): five bits of audio object type, four
/// of sampling frequency index (96000, 88200, 64000, 48000, 44100, 32000, 24000, 22050,
/// 16000, 12000, 11025, 8000, 7350 Hz; the rest are refused), four of channel configuration
/// (above 7 refused). The config written back carries the same sampling index (or, for
/// HE-AAC, it in the extension) and channel configuration under the chosen object type.
pub proof fn lemma_aac_config_fields(buf: Seq<u8>, off: int, size: int, browser: BrowserKind)
    requires
        0 <= off,
        2 <= size,
        off + size <= buf.len(),
    ensures
        ({
            let b0 = buf[off];
            let b1 = buf[off + 1];
            let si = (((b0 & 7u8) << 1u8) | (b1 >> 7u8)) as int;
            let ch = ((b1 >> 3u8) & 15u8) as int;
            let r = spec_aac_config(buf, off, size, browser);
            &&& si >= 13 ==> r == Err::<(Seq<u8>, u32, nat, nat, nat), DemuxError>(DemuxError::AacInvalidSamplingIndex)
            &&& si < 13 && ch >= 8 ==> r == Err::<(Seq<u8>, u32, nat, nat, nat), DemuxError>(DemuxError::AacInvalidChannelConfig)
            &&& si < 13 && ch < 8 ==> (r matches Ok((config, rate, channels, aot, aot0)) && {
                &&& rate == seq![96000u32, 88200, 64000, 48000, 44100, 32000, 24000, 22050, 16000, 12000, 11025, 8000, 7350][si]
                &&& channels == ch
                &&& aot0 == (b0 >> 3u8) as nat
                &&& config.len() >= 2
                &&& (config[0] >> 3u8) as nat == aot
                &&& ((config[1] >> 3u8) & 15u8) as int == ch
                &&& aot != 5 ==> (((config[0] & 7u8) << 1u8) | (config[1] >> 7u8)) as int == si
                &&& aot == 5 ==> config.len() == 4 && (((config[1] & 7u8) << 1u8) | (config[2] >> 7u8)) as int
                    == (if si >= 6 { si - 3 } else { si })
            })
        }),
{
    let b0 = buf[off];
    let b1 = buf[off + 1];
    assert(byte_or_zero(buf, off, size, 0) == b0);
    assert(byte_or_zero(buf, off, size, 1) == b1);
    assert((((b0 & 7u8) << 1u8) | (b1 >> 7u8)) as int == (b0 % 8) * 2 + b1 / 128
        && ((b1 >> 3u8) & 15u8) as int == (b1 % 128) / 8 && (b0 >> 3u8) as int == b0 / 8) by (bit_vector);
    let si = ((b0 % 8) * 2 + b1 / 128) as nat;
    let ch = ((b1 % 128) / 8) as nat;
    if si < 13 && ch < 8 {
        let p = aac_profile_for(browser, si, ch);
        let aot = p.0;
        let ext = p.1;
        assert(aot == 2 || aot == 5);
        assert(ext < 16);
        let c0 = ((aot * 8 + (si % 16) / 2) % 256) as u8;
        let c1_base = ((((si % 16) * 128) + ((ch % 16) * 8)) % 256) as nat;
        let a = aot as u8;
        let sv = si as u8;
        let cv = ch as u8;
        let ev = ext as u8;
        assert(c0 == ((a * 8 + sv / 2) % 256) as u8);
        assert(c1_base == ((sv % 2) * 128 + cv * 8) as nat);
        assert(((((a * 8 + sv / 2) % 256) as u8) >> 3u8) == a
            && (((((sv % 2) * 128 + cv * 8) as u8) >> 3u8) & 15u8) == cv
            && ((((((a * 8 + sv / 2) % 256) as u8) & 7u8) << 1u8) | ((((sv % 2) * 128 + cv * 8) as u8) >> 7u8)) == sv
            && (((((sv % 2) * 128 + cv * 8 + ev / 2) as u8) >> 3u8) & 15u8) == cv
            && ((((((sv % 2) * 128 + cv * 8 + ev / 2) as u8) & 7u8) << 1u8) | ((((ev % 2) * 128 + 8) as u8) >> 7u8)) == ev)
            by (bit_vector)
            requires a == 2 || a == 5, sv < 13, cv < 8, ev < 16;
    }
}

pub open spec fn aac_config_is(c: AudioConfig, r: (Seq<u8>, u32, nat, nat, nat)) -> bool {
    &&& c.config@ == r.0
    &&& c.bitRate == 0
    &&& c.samplingRate == r.1
    &&& c.channelCount == r.2
    &&& c.codec@ == mp4a_codec(r.3)
    &&& c.originalCodec@ == mp4a_codec(r.4)
}

fn mp4a_codec_string(aot: u32) -> (r: String)
    requires
        aot < 1000,
    ensures
        r@ == mp4a_codec(aot as nat),
{
    let mut s = String::from_str("mp4a.40.");
    proof {
        reveal_strlit("mp4a.40.");
    }
    push_decimal(&mut s, aot);
    assert(s@ =~= mp4a_codec(aot as nat));
    s
}

/// Parses an AAC AudioSpecificConfig and rewrites it for the browser.
pub fn _parseAACAudioSpecificConfig(arrayBuffer: &[u8], dataOffset: usize, dataSize: usize, browser: BrowserKind) -> (r: Result<AudioConfig, DemuxError>)
    ensures
        match spec_aac_config(arrayBuffer@, dataOffset as int, dataSize as int, browser) {
            Err(e) => r == Err::<AudioConfig, DemuxError>(e),
            Ok(c) => r is Ok && aac_config_is(r->Ok_0, c),
        },
{
    let a0 = get_byte(arrayBuffer, dataOffset, dataSize, 0) as u32;
    let a1 = get_byte(arrayBuffer, dataOffset, dataSize, 1) as u32;
    // 5 bits
    let originalAudioObjectType = a0 >> 3;
    // 4 bits
    let samplingIndex = ((a0 & 0x07) << 1) | (a1 >> 7);
    let channelConfig = (a1 & 0x78) >> 3;
    proof {
        assert(a0 >> 3 == a0 / 8) by (bit_vector) requires a0 < 256;
        assert(((a0 & 0x07) << 1) | (a1 >> 7) == (a0 % 8) * 2 + a1 / 128) by (bit_vector)
            requires a0 < 256, a1 < 256;
        assert((a1 & 0x78) >> 3 == (a1 % 128) / 8) by (bit_vector) requires a1 < 256;
    }
    if samplingIndex >= 13 {
        return Err(DemuxError::AacInvalidSamplingIndex);
    }
    let rates: [u32; 13] = [96000, 88200, 64000, 48000, 44100, 32000, 24000, 22050, 16000, 12000, 11025, 8000, 7350];
    assert(rates@ =~= MPEG_SAMPLING_RATES());
    let samplingFrequence = rates[samplingIndex as usize];
    if channelConfig >= 8 {
        return Err(DemuxError::AacInvalidChannelConfig);
    }
    let audioObjectType: u32;
    let extensionSamplingIndex: u32;
    let configLen: u32;
    match browser {
        BrowserKind::Firefox => {
            // firefox: use SBR (HE-AAC) if freq less than 24kHz
            if samplingIndex >= 6 {
                audioObjectType = 5;
                configLen = 4;
                extensionSamplingIndex = samplingIndex - 3;
            } else {
                // use LC-AAC
                audioObjectType = 2;
                configLen = 2;
                extensionSamplingIndex = samplingIndex;
            }
        },
        BrowserKind::Android => {
            // android: always use LC-AAC
            audioObjectType = 2;
            configLen = 2;
            extensionSamplingIndex = samplingIndex;
        },
        BrowserKind::Other => {
            // Always use HE-AAC to make it easier to switch aac codec profile
            if samplingIndex >= 6 {
                audioObjectType = 5;
                configLen = 4;
                extensionSamplingIndex = samplingIndex - 3;
            } else if channelConfig == 1 {
                // Mono channel
                audioObjectType = 2;
                configLen = 4;
                extensionSamplingIndex = samplingIndex;
            } else {
                audioObjectType = 5;
                configLen = 4;
                extensionSamplingIndex = samplingIndex;
            }
        },
    }
    let c0 = (((audioObjectType << 3) | ((samplingIndex & 0x0F) >> 1)) % 256) as u8;
    let c1_base = ((((samplingIndex & 0x0F) << 7) | ((channelConfig & 0x0F) << 3)) % 256) as u32;
    proof {
        assert(((audioObjectType << 3) | ((samplingIndex & 0x0F) >> 1)) % 256 == (audioObjectType * 8 + (samplingIndex % 16) / 2) % 256) by (bit_vector)
            requires audioObjectType <= 5, samplingIndex < 16;
        assert((((samplingIndex & 0x0F) << 7) | ((channelConfig & 0x0F) << 3)) % 256 == (((samplingIndex % 16) * 128) + ((channelConfig % 16) * 8)) % 256) by (bit_vector)
            requires samplingIndex < 16, channelConfig < 8;
    }
    let mut config: Vec<u8> = Vec::new();
    config.push(c0);
    if audioObjectType == 5 {
        proof {
            assert((extensionSamplingIndex & 0x0F) >> 1 == (extensionSamplingIndex % 16) / 2) by (bit_vector);
            assert((((extensionSamplingIndex & 0x01) << 7) | (2u32 << 2u32)) % 256 == ((extensionSamplingIndex % 2) * 128 + 8) % 256) by (bit_vector);
        }
        let c1 = ((c1_base + ((extensionSamplingIndex & 0x0F) >> 1)) % 256) as u8;
        let c2 = ((((extensionSamplingIndex & 0x01) << 7) | (2u32 << 2u32)) % 256) as u8;
        config.push(c1);
        // extended audio object type: force to 2 (LC-AAC)
        config.push(c2);
        config.push(0);
    } else {
        config.push(c1_base as u8);
        if configLen == 4 {
            config.push(0);
            config.push(0);
        }
    }
    let ghost expected = aac_config_bytes(audioObjectType as nat, samplingIndex as nat, channelConfig as nat, extensionSamplingIndex as nat, configLen as nat);
    assert(config@ =~= expected);
    Ok(AudioConfig {
        config,
        bitRate: 0,
        samplingRate: samplingFrequence,
        channelCount: channelConfig,
        codec: mp4a_codec_string(audioObjectType),
        originalCodec: mp4a_codec_string(originalAudioObjectType),
    })
}

// ---------------------------------------------------------------- MP3

pub open spec fn MPEG_V10_RATES() -> Seq<u32> { seq![44100u32, 48000, 32000, 0] }
pub open spec fn MPEG_V20_RATES() -> Seq<u32> { seq![22050u32, 24000, 16000, 0] }
pub open spec fn MPEG_V25_RATES() -> Seq<u32> { seq![11025u32, 12000, 8000, 0] }
pub open spec fn MPEG_L1_RATES() -> Seq<i32> { seq![0i32, 32, 64, 96, 128, 160, 192, 224, 256, 288, 320, 352, 384, 416, 448, -1i32] }
pub open spec fn MPEG_L2_RATES() -> Seq<i32> { seq![0i32, 32, 48, 56, 64, 80, 96, 112, 128, 160, 192, 224, 256, 320, 384, -1i32] }
pub open spec fn MPEG_L3_RATES() -> Seq<i32> { seq![0i32, 32, 40, 48, 56, 64, 80, 96, 112, 128, 160, 192, 224, 256, 320, -1i32] }

/// The MPEG audio frame header at `[off, off + size)`: sample rate, bit rate, channels.
pub open spec fn spec_mp3_header(buf: Seq<u8>, off: int, size: int) -> Option<(u32, i32, u32)> {
    let a0 = byte_or_zero(buf, off, size, 0);
    let a1 = byte_or_zero(buf, off, size, 1);
    let a2 = byte_or_zero(buf, off, size, 2);
    let a3 = byte_or_zero(buf, off, size, 3);
    if size < 4 || a0 != 0xFF {
        None
    } else {
        let ver = (a1 / 8) % 4;
        let layer = (a1 % 8) / 2;
        let bri = a2 / 16;
        let sfi = (a2 % 16) / 4;
        let ch: u32 = if a3 / 64 != 3 { 2 } else { 1 };
        let sr = if ver == 0 {
            MPEG_V25_RATES()[sfi as int]
        } else if ver == 2 {
            MPEG_V20_RATES()[sfi as int]
        } else if ver == 3 {
            MPEG_V10_RATES()[sfi as int]
        } else {
            0
        };
        let br = if layer == 1 {
            MPEG_L3_RATES()[bri as int]
        } else if layer == 2 {
            MPEG_L2_RATES()[bri as int]
        } else if layer == 3 {
            MPEG_L1_RATES()[bri as int]
        } else {
            0
        };
        Some((sr, br, ch))
    }
}

/// An MPEG audio frame header (ISO/IEC 11172-3 and 13818-3): after the sync byte, bits 4-3
/// of the second byte give the version (3 for MPEG-1, 2 for MPEG-2, 0 for MPEG-2.5, 1
/// reserved) and bits 2-1 the layer (1 for Layer III, 2 for Layer II, 3 for Layer I); the
/// high nibble of the third byte indexes the bit rate (kbit/s) of the layer and its bits
/// 3-2 the sample rate of the version; channel mode 3 (top bits of the fourth byte) is mono.
pub proof fn lemma_mp3_header(buf: Seq<u8>, off: int, size: int)
    requires
        0 <= off,
        4 <= size,
        off + size <= buf.len(),
        buf[off] == 0xFF,
    ensures
        spec_mp3_header(buf, off, size) matches Some((sr, br, ch)) && {
            let b1 = buf[off + 1];
            let b2 = buf[off + 2];
            let ver = (b1 >> 3u8) & 3u8;
            let layer = (b1 >> 1u8) & 3u8;
            let bri = (b2 >> 4u8) as int;
            let sfi = ((b2 >> 2u8) & 3u8) as int;
            &&& ch == if buf[off + 3] >> 6u8 == 3u8 { 1u32 } else { 2u32 }
            &&& ver == 3 ==> sr == seq![44100u32, 48000, 32000, 0][sfi]
            &&& ver == 2 ==> sr == seq![22050u32, 24000, 16000, 0][sfi]
            &&& ver == 0 ==> sr == seq![11025u32, 12000, 8000, 0][sfi]
            &&& ver == 1 ==> sr == 0
            &&& layer == 1 ==> br == seq![0i32, 32, 40, 48, 56, 64, 80, 96, 112, 128, 160, 192, 224, 256, 320, -1i32][bri]
            &&& layer == 2 ==> br == seq![0i32, 32, 48, 56, 64, 80, 96, 112, 128, 160, 192, 224, 256, 320, 384, -1i32][bri]
            &&& layer == 3 ==> br == seq![0i32, 32, 64, 96, 128, 160, 192, 224, 256, 288, 320, 352, 384, 416, 448, -1i32][bri]
            &&& layer == 0 ==> br == 0
        },
{
    let b1 = buf[off + 1];
    let b2 = buf[off + 2];
    let b3 = buf[off + 3];
    assert((b1 >> 3u8) & 3u8 == (b1 / 8) % 4 && (b1 >> 1u8) & 3u8 == (b1 % 8) / 2 && b2 >> 4u8 == b2 / 16
        && (b2 >> 2u8) & 3u8 == (b2 % 16) / 4 && b3 >> 6u8 == b3 / 64) by (bit_vector);
    assert(byte_or_zero(buf, off, size, 1) == b1);
    assert(byte_or_zero(buf, off, size, 2) == b2);
    assert(byte_or_zero(buf, off, size, 3) == b3);
}

/// Reads the MPEG audio frame header of an MP3 packet.
pub fn parse_mp3_header(arrayBuffer: &[u8], dataOffset: usize, dataSize: usize) -> (r: Option<AudioConfig>)
    ensures
        match spec_mp3_header(arrayBuffer@, dataOffset as int, dataSize as int) {
            None => r is None,
            Some((sr, br, ch)) => r is Some && r->Some_0.samplingRate == sr && r->Some_0.bitRate == br
                && r->Some_0.channelCount == ch && r->Some_0.codec@ == seq!['m', 'p', '3']
                && r->Some_0.originalCodec@ == seq!['m', 'p', '3'] && r->Some_0.config@.len() == 0,
        },
{
    if dataSize < 4 {
        return None;
    }
    let a0 = get_byte(arrayBuffer, dataOffset, dataSize, 0);
    let a1 = get_byte(arrayBuffer, dataOffset, dataSize, 1);
    let a2 = get_byte(arrayBuffer, dataOffset, dataSize, 2);
    let a3 = get_byte(arrayBuffer, dataOffset, dataSize, 3);
    if a0 != 0xFF {
        return None;
    }
    let ver = (a1 >> 3) & 0x03;
    let layer = (a1 & 0x06) >> 1;
    let bitrate_index = (a2 & 0xF0) >> 4;
    let sampling_freq_index = (a2 & 0x0C) >> 2;
    let channel_mode = (a3 >> 6) & 0x03;
    proof {
        assert((a1 >> 3) & 0x03 == (a1 / 8) % 4) by (bit_vector);
        assert((a1 & 0x06) >> 1 == (a1 % 8) / 2) by (bit_vector);
        assert((a2 & 0xF0) >> 4 == a2 / 16) by (bit_vector);
        assert((a2 & 0x0C) >> 2 == (a2 % 16) / 4) by (bit_vector);
        assert((a3 >> 6) & 0x03 == a3 / 64) by (bit_vector);
    }
    let channel_count: u32 = if channel_mode != 3 { 2 } else { 1 };
    let v10: [u32; 4] = [44100, 48000, 32000, 0];
    let v20: [u32; 4] = [22050, 24000, 16000, 0];
    let v25: [u32; 4] = [11025, 12000, 8000, 0];
    let l1: [i32; 16] = [0, 32, 64, 96, 128, 160, 192, 224, 256, 288, 320, 352, 384, 416, 448, -1];
    let l2: [i32; 16] = [0, 32, 48, 56, 64, 80, 96, 112, 128, 160, 192, 224, 256, 320, 384, -1];
    let l3: [i32; 16] = [0, 32, 40, 48, 56, 64, 80, 96, 112, 128, 160, 192, 224, 256, 320, -1];
    assert(v10@ =~= MPEG_V10_RATES());
    assert(v20@ =~= MPEG_V20_RATES());
    assert(v25@ =~= MPEG_V25_RATES());
    assert(l1@ =~= MPEG_L1_RATES());
    assert(l2@ =~= MPEG_L2_RATES());
    assert(l3@ =~= MPEG_L3_RATES());
    let sample_rate: u32 = if ver == 0 {
        v25[sampling_freq_index as usize]  // MPEG 2.5
    } else if ver == 2 {
        v20[sampling_freq_index as usize]  // MPEG 2
    } else if ver == 3 {
        v10[sampling_freq_index as usize]  // MPEG 1
    } else {
        0
    };
    let bit_rate: i32 = if layer == 1 {
        l3[bitrate_index as usize]  // Layer 3
    } else if layer == 2 {
        l2[bitrate_index as usize]  // Layer 2
    } else if layer == 3 {
        l1[bitrate_index as usize]  // Layer 1
    } else {
        0
    };
    let codec = String::from_str("mp3");
    let original = String::from_str("mp3");
    proof {
        reveal_strlit("mp3");
        assert(codec@ =~= seq!['m', 'p', '3']);
    }
    Some(AudioConfig {
        config: Vec::new(),
        bitRate: bit_rate,
        samplingRate: sample_rate,
        channelCount: channel_count,
        codec,
        originalCodec: original,
    })
}

} // verus!
