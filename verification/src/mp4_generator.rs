//! ISO BMFF (fragmented MP4) box writers for the init segment and media fragments.
use vstd::prelude::*;
use crate::bytes::{be32_at, be_bytes16, be_bytes32, lemma_be_bytes32_read, push_all, push_be16, push_be32};

verus! {

/// A box: its 32-bit size (header included, low 32 bits), its four-byte type, then its payload.
pub open spec fn box_bytes(box_type: Seq<u8>, payload: Seq<u8>) -> Seq<u8> {
    be_bytes32((8 + payload.len()) as nat) + box_type + payload
}

/// The contents of `datas`, one after the other.
pub open spec fn concat_views(datas: Seq<&[u8]>) -> Seq<u8> {
    datas.map_values(|d: &[u8]| d@).flatten()
}

/// Four-character box type.
pub open spec fn fourcc(a: char, b: char, c: char, d: char) -> Seq<u8> {
    seq![a as u8, b as u8, c as u8, d as u8]
}

/// The fixed bytes `FTYP`.
pub open spec fn FTYP() -> Seq<u8> {
    seq![0x69u8, 0x73, 0x6F, 0x6D, 0x00, 0x00, 0x00, 0x01, 0x69, 0x73, 0x6F, 0x6D, 0x61, 0x76, 0x63, 0x31]
}

const FTYP_BYTES: [u8; 16] = [0x69, 0x73, 0x6F, 0x6D, 0x00, 0x00, 0x00, 0x01, 0x69, 0x73, 0x6F, 0x6D, 0x61, 0x76, 0x63, 0x31];

/// The fixed bytes `STSD_PREFIX`.
pub open spec fn STSD_PREFIX() -> Seq<u8> {
    seq![0x00u8, 0x00, 0x00, 0x00, 0x00, 0x00, 0x00, 0x01]
}

const STSD_PREFIX_BYTES: [u8; 8] = [0x00, 0x00, 0x00, 0x00, 0x00, 0x00, 0x00, 0x01];

/// The fixed bytes `STTS`.
pub open spec fn STTS() -> Seq<u8> {
    seq![0x00u8, 0x00, 0x00, 0x00, 0x00, 0x00, 0x00, 0x00]
}

const STTS_BYTES: [u8; 8] = [0x00, 0x00, 0x00, 0x00, 0x00, 0x00, 0x00, 0x00];

/// The fixed bytes `STSZ`.
pub open spec fn STSZ() -> Seq<u8> {
    seq![0x00u8, 0x00, 0x00, 0x00, 0x00, 0x00, 0x00, 0x00, 0x00, 0x00, 0x00, 0x00]
}

const STSZ_BYTES: [u8; 12] = [0x00, 0x00, 0x00, 0x00, 0x00, 0x00, 0x00, 0x00, 0x00, 0x00, 0x00, 0x00];

/// The fixed bytes `HDLR_VIDEO`.
pub open spec fn HDLR_VIDEO() -> Seq<u8> {
    seq![0x00u8, 0x00, 0x00, 0x00, 0x00, 0x00, 0x00, 0x00, 0x76, 0x69, 0x64, 0x65, 0x00, 0x00, 0x00, 0x00, 0x00, 0x00, 0x00, 0x00, 0x00, 0x00, 0x00, 0x00, 0x56, 0x69, 0x64, 0x65, 0x6F, 0x48, 0x61, 0x6E, 0x64, 0x6C, 0x65, 0x72, 0x00]
}

const HDLR_VIDEO_BYTES: [u8; 37] = [0x00, 0x00, 0x00, 0x00, 0x00, 0x00, 0x00, 0x00, 0x76, 0x69, 0x64, 0x65, 0x00, 0x00, 0x00, 0x00, 0x00, 0x00, 0x00, 0x00, 0x00, 0x00, 0x00, 0x00, 0x56, 0x69, 0x64, 0x65, 0x6F, 0x48, 0x61, 0x6E, 0x64, 0x6C, 0x65, 0x72, 0x00];

/// The fixed bytes `HDLR_AUDIO`.
pub open spec fn HDLR_AUDIO() -> Seq<u8> {
    seq![0x00u8, 0x00, 0x00, 0x00, 0x00, 0x00, 0x00, 0x00, 0x73, 0x6F, 0x75, 0x6E, 0x00, 0x00, 0x00, 0x00, 0x00, 0x00, 0x00, 0x00, 0x00, 0x00, 0x00, 0x00, 0x53, 0x6F, 0x75, 0x6E, 0x64, 0x48, 0x61, 0x6E, 0x64, 0x6C, 0x65, 0x72, 0x00]
}

const HDLR_AUDIO_BYTES: [u8; 37] = [0x00, 0x00, 0x00, 0x00, 0x00, 0x00, 0x00, 0x00, 0x73, 0x6F, 0x75, 0x6E, 0x00, 0x00, 0x00, 0x00, 0x00, 0x00, 0x00, 0x00, 0x00, 0x00, 0x00, 0x00, 0x53, 0x6F, 0x75, 0x6E, 0x64, 0x48, 0x61, 0x6E, 0x64, 0x6C, 0x65, 0x72, 0x00];

/// The fixed bytes `DREF`.
pub open spec fn DREF() -> Seq<u8> {
    seq![0x00u8, 0x00, 0x00, 0x00, 0x00, 0x00, 0x00, 0x01, 0x00, 0x00, 0x00, 0x0C, 0x75, 0x72, 0x6C, 0x20, 0x00, 0x00, 0x00, 0x01]
}

const DREF_BYTES: [u8; 20] = [0x00, 0x00, 0x00, 0x00, 0x00, 0x00, 0x00, 0x01, 0x00, 0x00, 0x00, 0x0C, 0x75, 0x72, 0x6C, 0x20, 0x00, 0x00, 0x00, 0x01];

/// The fixed bytes `SMHD`.
pub open spec fn SMHD() -> Seq<u8> {
    seq![0x00u8, 0x00, 0x00, 0x00, 0x00, 0x00, 0x00, 0x00]
}

const SMHD_BYTES: [u8; 8] = [0x00, 0x00, 0x00, 0x00, 0x00, 0x00, 0x00, 0x00];

/// The fixed bytes `VMHD`.
pub open spec fn VMHD() -> Seq<u8> {
    seq![0x00u8, 0x00, 0x00, 0x01, 0x00, 0x00, 0x00, 0x00, 0x00, 0x00, 0x00, 0x00]
}

const VMHD_BYTES: [u8; 12] = [0x00, 0x00, 0x00, 0x01, 0x00, 0x00, 0x00, 0x00, 0x00, 0x00, 0x00, 0x00];

/// The fixed bytes `MVHD_TAIL`.
pub open spec fn MVHD_TAIL() -> Seq<u8> {
    seq![0x00u8, 0x01, 0x00, 0x00, 0x01, 0x00, 0x00, 0x00, 0x00, 0x00, 0x00, 0x00, 0x00, 0x00, 0x00, 0x00, 0x00, 0x01, 0x00, 0x00, 0x00, 0x00, 0x00, 0x00, 0x00, 0x00, 0x00, 0x00, 0x00, 0x00, 0x00, 0x00, 0x00, 0x01, 0x00, 0x00, 0x00, 0x00, 0x00, 0x00, 0x00, 0x00, 0x00, 0x00, 0x00, 0x00, 0x00, 0x00, 0x40, 0x00, 0x00, 0x00, 0x00, 0x00, 0x00, 0x00, 0x00, 0x00, 0x00, 0x00, 0x00, 0x00, 0x00, 0x00, 0x00, 0x00, 0x00, 0x00, 0x00, 0x00, 0x00, 0x00, 0x00, 0x00, 0x00, 0x00, 0xFF, 0xFF, 0xFF, 0xFF]
}

const MVHD_TAIL_BYTES: [u8; 80] = [0x00, 0x01, 0x00, 0x00, 0x01, 0x00, 0x00, 0x00, 0x00, 0x00, 0x00, 0x00, 0x00, 0x00, 0x00, 0x00, 0x00, 0x01, 0x00, 0x00, 0x00, 0x00, 0x00, 0x00, 0x00, 0x00, 0x00, 0x00, 0x00, 0x00, 0x00, 0x00, 0x00, 0x01, 0x00, 0x00, 0x00, 0x00, 0x00, 0x00, 0x00, 0x00, 0x00, 0x00, 0x00, 0x00, 0x00, 0x00, 0x40, 0x00, 0x00, 0x00, 0x00, 0x00, 0x00, 0x00, 0x00, 0x00, 0x00, 0x00, 0x00, 0x00, 0x00, 0x00, 0x00, 0x00, 0x00, 0x00, 0x00, 0x00, 0x00, 0x00, 0x00, 0x00, 0x00, 0x00, 0xFF, 0xFF, 0xFF, 0xFF];

/// The fixed bytes `TKHD_MID`.
pub open spec fn TKHD_MID() -> Seq<u8> {
    seq![0x00u8, 0x00, 0x00, 0x00, 0x00, 0x00, 0x00, 0x00, 0x00, 0x00, 0x00, 0x00, 0x00, 0x00, 0x00, 0x00, 0x00, 0x01, 0x00, 0x00, 0x00, 0x00, 0x00, 0x00, 0x00, 0x00, 0x00, 0x00, 0x00, 0x00, 0x00, 0x00, 0x00, 0x01, 0x00, 0x00, 0x00, 0x00, 0x00, 0x00, 0x00, 0x00, 0x00, 0x00, 0x00, 0x00, 0x00, 0x00, 0x40, 0x00, 0x00, 0x00]
}

const TKHD_MID_BYTES: [u8; 52] = [0x00, 0x00, 0x00, 0x00, 0x00, 0x00, 0x00, 0x00, 0x00, 0x00, 0x00, 0x00, 0x00, 0x00, 0x00, 0x00, 0x00, 0x01, 0x00, 0x00, 0x00, 0x00, 0x00, 0x00, 0x00, 0x00, 0x00, 0x00, 0x00, 0x00, 0x00, 0x00, 0x00, 0x01, 0x00, 0x00, 0x00, 0x00, 0x00, 0x00, 0x00, 0x00, 0x00, 0x00, 0x00, 0x00, 0x00, 0x00, 0x40, 0x00, 0x00, 0x00];

/// The fixed bytes `AVC1_HEAD`.
pub open spec fn AVC1_HEAD() -> Seq<u8> {
    seq![0x00u8, 0x00, 0x00, 0x00, 0x00, 0x00, 0x00, 0x01, 0x00, 0x00, 0x00, 0x00, 0x00, 0x00, 0x00, 0x00, 0x00, 0x00, 0x00, 0x00, 0x00, 0x00, 0x00, 0x00]
}

const AVC1_HEAD_BYTES: [u8; 24] = [0x00, 0x00, 0x00, 0x00, 0x00, 0x00, 0x00, 0x01, 0x00, 0x00, 0x00, 0x00, 0x00, 0x00, 0x00, 0x00, 0x00, 0x00, 0x00, 0x00, 0x00, 0x00, 0x00, 0x00];

/// The fixed bytes `AVC1_TAIL`.
pub open spec fn AVC1_TAIL() -> Seq<u8> {
    seq![0x00u8, 0x48, 0x00, 0x00, 0x00, 0x48, 0x00, 0x00, 0x00, 0x00, 0x00, 0x00, 0x00, 0x01, 0x0A, 0x78, 0x71, 0x71, 0x2F, 0x66, 0x6C, 0x76, 0x2E, 0x6A, 0x73, 0x00, 0x00, 0x00, 0x00, 0x00, 0x00, 0x00, 0x00, 0x00, 0x00, 0x00, 0x00, 0x00, 0x00, 0x00, 0x00, 0x00, 0x00, 0x00, 0x00, 0x00, 0x00, 0x18, 0xFF, 0xFF]
}

const AVC1_TAIL_BYTES: [u8; 50] = [0x00, 0x48, 0x00, 0x00, 0x00, 0x48, 0x00, 0x00, 0x00, 0x00, 0x00, 0x00, 0x00, 0x01, 0x0A, 0x78, 0x71, 0x71, 0x2F, 0x66, 0x6C, 0x76, 0x2E, 0x6A, 0x73, 0x00, 0x00, 0x00, 0x00, 0x00, 0x00, 0x00, 0x00, 0x00, 0x00, 0x00, 0x00, 0x00, 0x00, 0x00, 0x00, 0x00, 0x00, 0x00, 0x00, 0x00, 0x00, 0x18, 0xFF, 0xFF];

/// The fixed bytes `MDHD_TAIL`.
pub open spec fn MDHD_TAIL() -> Seq<u8> {
    seq![0x55u8, 0xC4, 0x00, 0x00]
}

const MDHD_TAIL_BYTES: [u8; 4] = [0x55, 0xC4, 0x00, 0x00];

/// The fixed bytes `AUDIO_ENTRY_HEAD`.
pub open spec fn AUDIO_ENTRY_HEAD() -> Seq<u8> {
    seq![0x00u8, 0x00, 0x00, 0x00, 0x00, 0x00, 0x00, 0x01, 0x00, 0x00, 0x00, 0x00, 0x00, 0x00, 0x00, 0x00, 0x00]
}

const AUDIO_ENTRY_HEAD_BYTES: [u8; 17] = [0x00, 0x00, 0x00, 0x00, 0x00, 0x00, 0x00, 0x01, 0x00, 0x00, 0x00, 0x00, 0x00, 0x00, 0x00, 0x00, 0x00];

/// The fixed bytes `ESDS_TAIL`.
pub open spec fn ESDS_TAIL() -> Seq<u8> {
    seq![0x06u8, 0x01, 0x02]
}

const ESDS_TAIL_BYTES: [u8; 3] = [0x06, 0x01, 0x02];

/// The fixed bytes `TREX_TAIL`.
pub open spec fn TREX_TAIL() -> Seq<u8> {
    seq![0x00u8, 0x00, 0x00, 0x01, 0x00, 0x00, 0x00, 0x00, 0x00, 0x00, 0x00, 0x00, 0x00, 0x01, 0x00, 0x01]
}

const TREX_TAIL_BYTES: [u8; 16] = [0x00, 0x00, 0x00, 0x01, 0x00, 0x00, 0x00, 0x00, 0x00, 0x00, 0x00, 0x00, 0x00, 0x01, 0x00, 0x01];


/// Kind of track a [`Meta`] describes.
#[derive(Clone, Copy, PartialEq, Eq, Structural)]
pub enum TrackType {
    Audio,
    Video,
}

/// What the init segment of one track is made from.
pub struct Meta {
    pub id: u32,
    pub _type: TrackType,
    pub timescale: u32,
    pub duration: u32,
    pub presentWidth: u32,
    pub presentHeight: u32,
    pub codecWidth: u32,
    pub codecHeight: u32,
    pub channelCount: u32,
    pub audioSampleRate: u32,
    /// `"mp3"` selects an `.mp3` sample entry for audio; anything else `mp4a`.
    pub codec: String,
    /// AudioSpecificConfig (AAC), carried in `esds`.
    pub config: Vec<u8>,
    /// AVCDecoderConfigurationRecord, carried in `avcC`.
    pub avcc: Vec<u8>,
}

/// Bound under which every box of a [`Meta`] fits in memory.
pub open spec fn meta_fits(meta: &Meta) -> bool {
    meta.config@.len() + meta.avcc@.len() <= usize::MAX - 4096
}

/// Whether a meta fits depends on the lengths of its byte fields only.
pub proof fn lemma_meta_fits_same(a: Meta, b: Meta)
    requires
        a.config@.len() == b.config@.len(),
        a.avcc@.len() == b.avcc@.len(),
    ensures
        meta_fits(&a) == meta_fits(&b),
{
}

/// The codec string of the track is `"mp3"`.
pub open spec fn is_mp3_codec(meta: &Meta) -> bool {
    meta.codec@ == seq!['m', 'p', '3']
}

/// Builds a box from a four-byte type and one payload.
fn box_of(t: [u8; 4], payload: &Vec<u8>) -> (r: Vec<u8>)
    requires
        8 + payload@.len() <= usize::MAX,
    ensures
        r@ == box_bytes(t@, payload@),
{
    let parts: [&[u8]; 1] = [payload.as_slice()];
    proof {
        assert(parts@.map_values(|d: &[u8]| d@) =~= seq![payload@]);
        seq![payload@].lemma_flatten_singleton();
    }
    genBox(&t, &parts)
}

/// Generates a box of type `boxType` whose payload is the contents of `datas` in order.
pub fn genBox(boxType: &[u8], datas: &[&[u8]]) -> (r: Vec<u8>)
    requires
        8 + concat_views(datas@).len() <= usize::MAX,
    ensures
        r@ == box_bytes(boxType@, concat_views(datas@)),
{
    let mut size: usize = 8;
    let mut i: usize = 0;
    while i < datas.len()
        invariant
            i <= datas@.len(),
            8 + concat_views(datas@).len() <= usize::MAX,
            size == 8 + concat_views(datas@.subrange(0, i as int)).len(),
        decreases datas@.len() - i,
    {
        proof {
            lemma_concat_views_step(datas@, i as int);
            lemma_concat_prefix_le(datas@, i as int + 1);
        }
        size = size + datas[i].len();
        i = i + 1;
    }
    assert(datas@.subrange(0, datas@.len() as int) =~= datas@);
    let mut result: Vec<u8> = Vec::new();
    push_be32(&mut result, size as u64);
    push_all(&mut result, boxType);
    let mut j: usize = 0;
    while j < datas.len()
        invariant
            j <= datas@.len(),
            size == 8 + concat_views(datas@).len(),
            result@ == be_bytes32(size as nat) + boxType@ + concat_views(
                datas@.subrange(0, j as int),
            ),
        decreases datas@.len() - j,
    {
        proof {
            lemma_concat_views_step(datas@, j as int);
        }
        push_all(&mut result, datas[j]);
        j = j + 1;
    }
    assert(result@ =~= box_bytes(boxType@, concat_views(datas@)));
    result
}

proof fn lemma_concat_views_step(datas: Seq<&[u8]>, i: int)
    requires
        0 <= i < datas.len(),
    ensures
        concat_views(datas.subrange(0, i + 1)) == concat_views(datas.subrange(0, i)) + datas[i]@,
{
    let pre = datas.subrange(0, i);
    let nxt = datas.subrange(0, i + 1);
    assert(nxt == pre.push(datas[i]));
    assert(nxt.map_values(|d: &[u8]| d@) =~= pre.map_values(|d: &[u8]| d@).push(datas[i]@));
    pre.map_values(|d: &[u8]| d@).lemma_flatten_push(datas[i]@);
}

proof fn lemma_concat_prefix_le(datas: Seq<&[u8]>, k: int)
    requires
        0 <= k <= datas.len(),
    ensures
        concat_views(datas.subrange(0, k)).len() <= concat_views(datas).len(),
    decreases datas.len() - k,
{
    if k < datas.len() {
        lemma_concat_prefix_le(datas, k + 1);
        lemma_concat_views_step(datas, k);
    } else {
        assert(datas.subrange(0, k) =~= datas);
    }
}

// ---------------------------------------------------------------- init segment

/// `ftyp` followed by `moov`.
#[verifier::opaque]
pub open spec fn spec_init_segment(meta: &Meta) -> Seq<u8> {
    box_bytes(fourcc('f', 't', 'y', 'p'), FTYP()) + spec_moov(meta)
}

#[verifier::opaque]
pub open spec fn spec_moov(meta: &Meta) -> Seq<u8> {
    box_bytes(
        fourcc('m', 'o', 'o', 'v'),
        spec_mvhd(meta.timescale, meta.duration) + spec_trak(meta) + spec_mvex(meta),
    )
}

#[verifier::opaque]
pub open spec fn spec_mvhd(timescale: u32, duration: u32) -> Seq<u8> {
    box_bytes(
        fourcc('m', 'v', 'h', 'd'),
        Seq::new(12, |i: int| 0u8) + be_bytes32(timescale as nat) + be_bytes32(duration as nat)
            + MVHD_TAIL(),
    )
}

#[verifier::opaque]
pub open spec fn spec_trak(meta: &Meta) -> Seq<u8> {
    box_bytes(fourcc('t', 'r', 'a', 'k'), spec_tkhd(meta) + spec_mdia(meta))
}

#[verifier::opaque]
pub open spec fn spec_tkhd(meta: &Meta) -> Seq<u8> {
    box_bytes(
        fourcc('t', 'k', 'h', 'd'),
        seq![0u8, 0, 0, 7] + Seq::new(8, |i: int| 0u8) + be_bytes32(meta.id as nat) + Seq::new(
            4,
            |i: int| 0u8,
        ) + be_bytes32(meta.duration as nat) + TKHD_MID() + be_bytes16(meta.presentWidth as nat)
            + seq![0u8, 0] + be_bytes16(meta.presentHeight as nat) + seq![0u8, 0],
    )
}

#[verifier::opaque]
pub open spec fn spec_mdia(meta: &Meta) -> Seq<u8> {
    box_bytes(fourcc('m', 'd', 'i', 'a'), spec_mdhd(meta) + spec_hdlr(meta) + spec_minf(meta))
}

#[verifier::opaque]
pub open spec fn spec_mdhd(meta: &Meta) -> Seq<u8> {
    box_bytes(
        fourcc('m', 'd', 'h', 'd'),
        Seq::new(12, |i: int| 0u8) + be_bytes32(meta.timescale as nat) + be_bytes32(
            meta.duration as nat,
        ) + MDHD_TAIL(),
    )
}

#[verifier::opaque]
pub open spec fn spec_hdlr(meta: &Meta) -> Seq<u8> {
    box_bytes(
        fourcc('h', 'd', 'l', 'r'),
        if meta._type == TrackType::Audio {
            HDLR_AUDIO()
        } else {
            HDLR_VIDEO()
        },
    )
}

#[verifier::opaque]
pub open spec fn spec_minf(meta: &Meta) -> Seq<u8> {
    let xmhd = if meta._type == TrackType::Audio {
        box_bytes(fourcc('s', 'm', 'h', 'd'), SMHD())
    } else {
        box_bytes(fourcc('v', 'm', 'h', 'd'), VMHD())
    };
    box_bytes(fourcc('m', 'i', 'n', 'f'), xmhd + spec_dinf() + spec_stbl(meta))
}

#[verifier::opaque]
pub open spec fn spec_dinf() -> Seq<u8> {
    box_bytes(fourcc('d', 'i', 'n', 'f'), box_bytes(fourcc('d', 'r', 'e', 'f'), DREF()))
}

#[verifier::opaque]
pub open spec fn spec_stbl(meta: &Meta) -> Seq<u8> {
    box_bytes(
        fourcc('s', 't', 'b', 'l'),
        spec_stsd(meta) + box_bytes(fourcc('s', 't', 't', 's'), STTS()) + box_bytes(
            fourcc('s', 't', 's', 'c'),
            STTS(),
        ) + box_bytes(fourcc('s', 't', 's', 'z'), STSZ()) + box_bytes(
            fourcc('s', 't', 'c', 'o'),
            STTS(),
        ),
    )
}

#[verifier::opaque]
pub open spec fn spec_stsd(meta: &Meta) -> Seq<u8> {
    box_bytes(
        fourcc('s', 't', 's', 'd'),
        STSD_PREFIX() + if meta._type == TrackType::Audio {
            if is_mp3_codec(meta) {
                spec_mp3(meta)
            } else {
                spec_mp4a(meta)
            }
        } else {
            spec_avc1(meta)
        },
    )
}

/// The audio sample entry body shared by `.mp3` and `mp4a`.
#[verifier::opaque]
pub open spec fn spec_audio_entry(meta: &Meta) -> Seq<u8> {
    AUDIO_ENTRY_HEAD() + seq![(meta.channelCount % 256) as u8] + seq![0u8, 0x10] + Seq::new(
        4,
        |i: int| 0u8,
    ) + be_bytes16(meta.audioSampleRate as nat) + seq![0u8, 0]
}

#[verifier::opaque]
pub open spec fn spec_mp3(meta: &Meta) -> Seq<u8> {
    box_bytes(fourcc('.', 'm', 'p', '3'), spec_audio_entry(meta))
}

#[verifier::opaque]
pub open spec fn spec_mp4a(meta: &Meta) -> Seq<u8> {
    box_bytes(fourcc('m', 'p', '4', 'a'), spec_audio_entry(meta) + spec_esds(meta))
}

#[verifier::opaque]
pub open spec fn spec_esds(meta: &Meta) -> Seq<u8> {
    let n = meta.config@.len();
    box_bytes(
        fourcc('e', 's', 'd', 's'),
        seq![0u8, 0, 0, 0, 0x03, ((0x17 + n) % 256) as u8, 0x00, 0x01, 0x00, 0x04, ((0x0F + n) % 256) as u8,
        0x40, 0x15, 0, 0, 0, 0, 0, 0, 0, 0, 0, 0, 0, 0x05, (n % 256) as u8] + meta.config@
            + ESDS_TAIL(),
    )
}

#[verifier::opaque]
pub open spec fn spec_avc1(meta: &Meta) -> Seq<u8> {
    box_bytes(
        fourcc('a', 'v', 'c', '1'),
        AVC1_HEAD() + be_bytes16(meta.codecWidth as nat) + be_bytes16(meta.codecHeight as nat)
            + AVC1_TAIL() + box_bytes(fourcc('a', 'v', 'c', 'C'), meta.avcc@),
    )
}

#[verifier::opaque]
pub open spec fn spec_mvex(meta: &Meta) -> Seq<u8> {
    box_bytes(fourcc('m', 'v', 'e', 'x'), spec_trex(meta))
}

#[verifier::opaque]
pub open spec fn spec_trex(meta: &Meta) -> Seq<u8> {
    box_bytes(
        fourcc('t', 'r', 'e', 'x'),
        Seq::new(4, |i: int| 0u8) + be_bytes32(meta.id as nat) + TREX_TAIL(),
    )
}

/// Emits `ftyp` and `moov` for one track.
pub fn generateInitSegment(meta: &Meta) -> (r: Vec<u8>)
    requires
        meta_fits(meta),
    ensures
        r@ == spec_init_segment(meta),
{
    let mut payload: Vec<u8> = Vec::new();
    push_all(&mut payload, &FTYP_BYTES);
    assert(FTYP_BYTES@ =~= FTYP());
    let mut ftyp = box_of([0x66, 0x74, 0x79, 0x70], &payload);
    let m = moov(meta);
    proof { lemma_trak_len(meta); reveal(spec_init_segment); }
    push_all(&mut ftyp, m.as_slice());
    assert(ftyp@ =~= spec_init_segment(meta));
    ftyp
}

/// Byte lengths of the variable-size boxes of the init segment.
proof fn lemma_init_lens(meta: &Meta)
    ensures
        spec_mvhd(meta.timescale, meta.duration).len() == 108,
        spec_tkhd(meta).len() == 92,
        spec_mdhd(meta).len() == 32,
        spec_hdlr(meta).len() == 45,
        spec_dinf().len() == 36,
        spec_audio_entry(meta).len() == 28,
        spec_mp3(meta).len() == 36,
        spec_esds(meta).len() == 37 + meta.config@.len(),
        spec_mp4a(meta).len() == 73 + meta.config@.len(),
        spec_avc1(meta).len() == 94 + meta.avcc@.len(),
        spec_trex(meta).len() == 32,
        spec_mvex(meta).len() == 40,
{
    reveal(spec_mvhd);
    reveal(spec_tkhd);
    reveal(spec_mdhd);
    reveal(spec_hdlr);
    reveal(spec_dinf);
    reveal(spec_audio_entry);
    reveal(spec_mp3);
    reveal(spec_esds);
    reveal(spec_mp4a);
    reveal(spec_avc1);
    reveal(spec_trex);
    reveal(spec_mvex);
}

proof fn lemma_stsd_len(meta: &Meta)
    ensures
        spec_stsd(meta).len() <= 110 + meta.config@.len() + meta.avcc@.len(),
        spec_stbl(meta).len() <= 190 + meta.config@.len() + meta.avcc@.len(),
{
    lemma_init_lens(meta);
    reveal(spec_stsd);
    reveal(spec_stbl);
}

proof fn lemma_trak_len(meta: &Meta)
    ensures
        spec_minf(meta).len() <= 260 + meta.config@.len() + meta.avcc@.len(),
        spec_mdia(meta).len() <= 350 + meta.config@.len() + meta.avcc@.len(),
        spec_trak(meta).len() <= 460 + meta.config@.len() + meta.avcc@.len(),
        spec_moov(meta).len() <= 620 + meta.config@.len() + meta.avcc@.len(),
{
    lemma_init_lens(meta);
    lemma_stsd_len(meta);
    reveal(spec_minf);
    reveal(spec_mdia);
    reveal(spec_trak);
    reveal(spec_moov);
}

/// Movie metadata box.
pub fn moov(meta: &Meta) -> (r: Vec<u8>)
    requires
        meta_fits(meta),
    ensures
        r@ == spec_moov(meta),
{
    reveal(spec_moov);
    let a = mvhd(meta.timescale, meta.duration);
    let b = trak(meta);
    let c = mvex(meta);
    proof { lemma_init_lens(meta); lemma_stsd_len(meta); lemma_trak_len(meta); }
    let mut payload: Vec<u8> = Vec::new();
    push_all(&mut payload, a.as_slice());
    push_all(&mut payload, b.as_slice());
    push_all(&mut payload, c.as_slice());
    box_of([0x6d, 0x6f, 0x6f, 0x76], &payload)
}

/// Movie header box.
pub fn mvhd(timescale: u32, duration: u32) -> (r: Vec<u8>)
    ensures
        r@ == spec_mvhd(timescale, duration),
{
    reveal(spec_mvhd);
    let mut payload: Vec<u8> = Vec::new();
    let zeros: [u8; 12] = [0; 12];
    push_all(&mut payload, &zeros);
    push_be32(&mut payload, timescale as u64);
    push_be32(&mut payload, duration as u64);
    push_all(&mut payload, &MVHD_TAIL_BYTES);
    assert(zeros@ =~= Seq::new(12, |i: int| 0u8));
    assert(MVHD_TAIL_BYTES@ =~= MVHD_TAIL());
    box_of([0x6d, 0x76, 0x68, 0x64], &payload)
}

/// Track box.
pub fn trak(meta: &Meta) -> (r: Vec<u8>)
    requires
        meta_fits(meta),
    ensures
        r@ == spec_trak(meta),
{
    reveal(spec_trak);
    let a = tkhd(meta);
    let b = mdia(meta);
    proof { lemma_init_lens(meta); lemma_stsd_len(meta); lemma_trak_len(meta); }
    let mut payload: Vec<u8> = Vec::new();
    push_all(&mut payload, a.as_slice());
    push_all(&mut payload, b.as_slice());
    box_of([0x74, 0x72, 0x61, 0x6b], &payload)
}

/// Track header box.
pub fn tkhd(meta: &Meta) -> (r: Vec<u8>)
    ensures
        r@ == spec_tkhd(meta),
{
    reveal(spec_tkhd);
    let mut payload: Vec<u8> = Vec::new();
    let flags: [u8; 4] = [0, 0, 0, 7];
    let z8: [u8; 8] = [0; 8];
    let z4: [u8; 4] = [0; 4];
    let z2: [u8; 2] = [0; 2];
    push_all(&mut payload, &flags);
    push_all(&mut payload, &z8);
    push_be32(&mut payload, meta.id as u64);
    push_all(&mut payload, &z4);
    push_be32(&mut payload, meta.duration as u64);
    push_all(&mut payload, &TKHD_MID_BYTES);
    push_be16(&mut payload, meta.presentWidth as u64);
    push_all(&mut payload, &z2);
    push_be16(&mut payload, meta.presentHeight as u64);
    push_all(&mut payload, &z2);
    assert(flags@ =~= seq![0u8, 0, 0, 7]);
    assert(z8@ =~= Seq::new(8, |i: int| 0u8));
    assert(z4@ =~= Seq::new(4, |i: int| 0u8));
    assert(z2@ =~= seq![0u8, 0]);
    assert(TKHD_MID_BYTES@ =~= TKHD_MID());
    let r = box_of([0x74, 0x6b, 0x68, 0x64], &payload);
    assert(r@ =~= spec_tkhd(meta));
    r
}

/// Media box.
pub fn mdia(meta: &Meta) -> (r: Vec<u8>)
    requires
        meta_fits(meta),
    ensures
        r@ == spec_mdia(meta),
{
    reveal(spec_mdia);
    let a = mdhd(meta);
    let b = hdlr(meta);
    let c = minf(meta);
    proof { lemma_init_lens(meta); lemma_stsd_len(meta); lemma_trak_len(meta); }
    let mut payload: Vec<u8> = Vec::new();
    push_all(&mut payload, a.as_slice());
    push_all(&mut payload, b.as_slice());
    push_all(&mut payload, c.as_slice());
    box_of([0x6d, 0x64, 0x69, 0x61], &payload)
}

/// Media header box.
pub fn mdhd(meta: &Meta) -> (r: Vec<u8>)
    ensures
        r@ == spec_mdhd(meta),
{
    reveal(spec_mdhd);
    let mut payload: Vec<u8> = Vec::new();
    let zeros: [u8; 12] = [0; 12];
    push_all(&mut payload, &zeros);
    push_be32(&mut payload, meta.timescale as u64);
    push_be32(&mut payload, meta.duration as u64);
    push_all(&mut payload, &MDHD_TAIL_BYTES);
    assert(zeros@ =~= Seq::new(12, |i: int| 0u8));
    assert(MDHD_TAIL_BYTES@ =~= MDHD_TAIL());
    box_of([0x6d, 0x64, 0x68, 0x64], &payload)
}

/// Media handler reference box.
pub fn hdlr(meta: &Meta) -> (r: Vec<u8>)
    ensures
        r@ == spec_hdlr(meta),
{
    reveal(spec_hdlr);
    let mut payload: Vec<u8> = Vec::new();
    if meta._type == TrackType::Audio {
        push_all(&mut payload, &HDLR_AUDIO_BYTES);
        assert(HDLR_AUDIO_BYTES@ =~= HDLR_AUDIO());
    } else {
        push_all(&mut payload, &HDLR_VIDEO_BYTES);
        assert(HDLR_VIDEO_BYTES@ =~= HDLR_VIDEO());
    }
    box_of([0x68, 0x64, 0x6c, 0x72], &payload)
}

/// Media information box.
pub fn minf(meta: &Meta) -> (r: Vec<u8>)
    requires
        meta_fits(meta),
    ensures
        r@ == spec_minf(meta),
{
    reveal(spec_minf);
    let mut head: Vec<u8> = Vec::new();
    let xmhd;
    if meta._type == TrackType::Audio {
        push_all(&mut head, &SMHD_BYTES);
        assert(SMHD_BYTES@ =~= SMHD());
        xmhd = box_of([0x73, 0x6d, 0x68, 0x64], &head);
    } else {
        push_all(&mut head, &VMHD_BYTES);
        assert(VMHD_BYTES@ =~= VMHD());
        xmhd = box_of([0x76, 0x6d, 0x68, 0x64], &head);
    }
    let b = dinf();
    let c = stbl(meta);
    proof { lemma_init_lens(meta); lemma_stsd_len(meta); lemma_trak_len(meta); }
    let mut payload: Vec<u8> = Vec::new();
    push_all(&mut payload, xmhd.as_slice());
    push_all(&mut payload, b.as_slice());
    push_all(&mut payload, c.as_slice());
    box_of([0x6d, 0x69, 0x6e, 0x66], &payload)
}

/// Data information box.
pub fn dinf() -> (r: Vec<u8>)
    ensures
        r@ == spec_dinf(),
{
    reveal(spec_dinf);
    let mut d: Vec<u8> = Vec::new();
    push_all(&mut d, &DREF_BYTES);
    assert(DREF_BYTES@ =~= DREF());
    let dref = box_of([0x64, 0x72, 0x65, 0x66], &d);
    box_of([0x64, 0x69, 0x6e, 0x66], &dref)
}

/// Sample table box.
pub fn stbl(meta: &Meta) -> (r: Vec<u8>)
    requires
        meta_fits(meta),
    ensures
        r@ == spec_stbl(meta),
{
    reveal(spec_stbl);
    let a = stsd(meta);
    proof { lemma_init_lens(meta); lemma_stsd_len(meta); lemma_trak_len(meta); }
    let mut stts_payload: Vec<u8> = Vec::new();
    push_all(&mut stts_payload, &STTS_BYTES);
    let mut stsz_payload: Vec<u8> = Vec::new();
    push_all(&mut stsz_payload, &STSZ_BYTES);
    assert(STTS_BYTES@ =~= STTS());
    assert(STSZ_BYTES@ =~= STSZ());
    let stts = box_of([0x73, 0x74, 0x74, 0x73], &stts_payload);
    let stsc = box_of([0x73, 0x74, 0x73, 0x63], &stts_payload);
    let stsz = box_of([0x73, 0x74, 0x73, 0x7a], &stsz_payload);
    let stco = box_of([0x73, 0x74, 0x63, 0x6f], &stts_payload);
    let mut payload: Vec<u8> = Vec::new();
    push_all(&mut payload, a.as_slice());
    push_all(&mut payload, stts.as_slice());
    push_all(&mut payload, stsc.as_slice());
    push_all(&mut payload, stsz.as_slice());
    push_all(&mut payload, stco.as_slice());
    box_of([0x73, 0x74, 0x62, 0x6c], &payload)
}

/// Sample description box.
pub fn stsd(meta: &Meta) -> (r: Vec<u8>)
    requires
        meta_fits(meta),
    ensures
        r@ == spec_stsd(meta),
{
    reveal(spec_stsd);
    let entry;
    if meta._type == TrackType::Audio {
        let mp3_name = String::from_str("mp3");
        proof {
            reveal_strlit("mp3");
            assert(mp3_name@ =~= seq!['m', 'p', '3']);
        }
        if meta.codec == mp3_name {
            entry = mp3(meta);
        } else {
            entry = mp4a(meta);
        }
    } else {
        entry = avc1(meta);
    }
    proof { lemma_init_lens(meta); }
    let mut payload: Vec<u8> = Vec::new();
    push_all(&mut payload, &STSD_PREFIX_BYTES);
    assert(STSD_PREFIX_BYTES@ =~= STSD_PREFIX());
    push_all(&mut payload, entry.as_slice());
    box_of([0x73, 0x74, 0x73, 0x64], &payload)
}

fn audio_entry(meta: &Meta) -> (r: Vec<u8>)
    ensures
        r@ == spec_audio_entry(meta),
{
    reveal(spec_audio_entry);
    let mut data: Vec<u8> = Vec::new();
    push_all(&mut data, &AUDIO_ENTRY_HEAD_BYTES);
    data.push((meta.channelCount % 256) as u8);
    let ss: [u8; 2] = [0x00, 0x10];
    let z4: [u8; 4] = [0; 4];
    let z2: [u8; 2] = [0; 2];
    push_all(&mut data, &ss);
    push_all(&mut data, &z4);
    push_be16(&mut data, meta.audioSampleRate as u64);
    push_all(&mut data, &z2);
    assert(AUDIO_ENTRY_HEAD_BYTES@ =~= AUDIO_ENTRY_HEAD());
    assert(ss@ =~= seq![0u8, 0x10]);
    assert(z4@ =~= Seq::new(4, |i: int| 0u8));
    assert(z2@ =~= seq![0u8, 0]);
    assert(data@ =~= spec_audio_entry(meta));
    data
}

/// MPEG audio (mp3) sample entry.
pub fn mp3(meta: &Meta) -> (r: Vec<u8>)
    ensures
        r@ == spec_mp3(meta),
{
    reveal(spec_mp3);
    let data = audio_entry(meta);
    proof { lemma_init_lens(meta); }
    box_of([0x2e, 0x6d, 0x70, 0x33], &data)
}

/// AAC sample entry.
pub fn mp4a(meta: &Meta) -> (r: Vec<u8>)
    requires
        meta_fits(meta),
    ensures
        r@ == spec_mp4a(meta),
{
    reveal(spec_mp4a);
    let mut data = audio_entry(meta);
    let e = esds(meta);
    proof { lemma_init_lens(meta); }
    push_all(&mut data, e.as_slice());
    box_of([0x6d, 0x70, 0x34, 0x61], &data)
}

/// Elementary stream descriptor box.
pub fn esds(meta: &Meta) -> (r: Vec<u8>)
    requires
        meta_fits(meta),
    ensures
        r@ == spec_esds(meta),
{
    reveal(spec_esds);
    let n = meta.config.len();
    let l3 = ((0x17 + (n % 256)) % 256) as u8;
    let l4 = ((0x0F + (n % 256)) % 256) as u8;
    let l5 = (n % 256) as u8;
    assert(l3 == ((0x17 + n) % 256) as u8) by (nonlinear_arith)
        requires
            l3 == ((0x17 + (n % 256)) % 256) as u8;
    assert(l4 == ((0x0F + n) % 256) as u8) by (nonlinear_arith)
        requires
            l4 == ((0x0F + (n % 256)) % 256) as u8;
    let head: [u8; 26] = [
        0x00, 0x00, 0x00, 0x00, 0x03, l3, 0x00, 0x01, 0x00, 0x04, l4, 0x40, 0x15, 0x00, 0x00,
        0x00, 0x00, 0x00, 0x00, 0x00, 0x00, 0x00, 0x00, 0x00, 0x05, l5,
    ];
    let mut data: Vec<u8> = Vec::new();
    push_all(&mut data, &head);
    push_all(&mut data, meta.config.as_slice());
    push_all(&mut data, &ESDS_TAIL_BYTES);
    assert(ESDS_TAIL_BYTES@ =~= ESDS_TAIL());
    let r = box_of([0x65, 0x73, 0x64, 0x73], &data);
    assert(r@ =~= spec_esds(meta));
    r
}

/// AVC sample entry with its `avcC` box.
pub fn avc1(meta: &Meta) -> (r: Vec<u8>)
    requires
        meta_fits(meta),
    ensures
        r@ == spec_avc1(meta),
{
    reveal(spec_avc1);
    let avcc = box_of([0x61, 0x76, 0x63, 0x43], &meta.avcc);
    let mut data: Vec<u8> = Vec::new();
    push_all(&mut data, &AVC1_HEAD_BYTES);
    push_be16(&mut data, meta.codecWidth as u64);
    push_be16(&mut data, meta.codecHeight as u64);
    push_all(&mut data, &AVC1_TAIL_BYTES);
    push_all(&mut data, avcc.as_slice());
    assert(AVC1_HEAD_BYTES@ =~= AVC1_HEAD());
    assert(AVC1_TAIL_BYTES@ =~= AVC1_TAIL());
    box_of([0x61, 0x76, 0x63, 0x31], &data)
}

/// Movie extends box.
pub fn mvex(meta: &Meta) -> (r: Vec<u8>)
    ensures
        r@ == spec_mvex(meta),
{
    reveal(spec_mvex);
    let t = trex(meta);
    proof { lemma_init_lens(meta); }
    box_of([0x6d, 0x76, 0x65, 0x78], &t)
}

/// Track extends box.
pub fn trex(meta: &Meta) -> (r: Vec<u8>)
    ensures
        r@ == spec_trex(meta),
{
    reveal(spec_trex);
    let mut data: Vec<u8> = Vec::new();
    let z4: [u8; 4] = [0; 4];
    push_all(&mut data, &z4);
    push_be32(&mut data, meta.id as u64);
    push_all(&mut data, &TREX_TAIL_BYTES);
    assert(z4@ =~= Seq::new(4, |i: int| 0u8));
    assert(TREX_TAIL_BYTES@ =~= TREX_TAIL());
    box_of([0x74, 0x72, 0x65, 0x78], &data)
}


// ---------------------------------------------------------------- media fragments

/// Sample dependency flags, as `sdtp` and `trun` store them.
#[derive(Clone, Copy)]
pub struct SampleFlags {
    pub isLeading: u8,
    pub dependsOn: u8,
    pub isDependedOn: u8,
    pub hasRedundancy: u8,
    pub isNonSync: u8,
}

/// One sample of a media fragment, as `trun` and `sdtp` describe it.
#[derive(Clone, Copy)]
pub struct Mp4Sample {
    pub dts: i64,
    pub pts: i64,
    pub cts: i64,
    pub duration: i64,
    pub size: usize,
    pub originalDts: i64,
    pub isKeyframe: bool,
    pub flags: SampleFlags,
}

/// A track as a media fragment is written from it.
pub struct FragmentTrack {
    pub id: u32,
    pub sequenceNumber: u32,
    pub samples: Vec<Mp4Sample>,
}

/// Bound under which every box of a fragment fits in memory.
pub open spec fn fragment_fits(track: &FragmentTrack) -> bool {
    17 * track.samples@.len() + 1024 <= usize::MAX
}

/// The `sdtp` byte of a sample.
pub open spec fn sdtp_byte(f: SampleFlags) -> u8 {
    (f.isLeading << 6u8) | (f.dependsOn << 4u8) | (f.isDependedOn << 2u8) | f.hasRedundancy
}

/// The 16 bytes `trun` holds for a sample.
pub open spec fn trun_entry(s: Mp4Sample) -> Seq<u8> {
    be_bytes32((s.duration as u64) as nat) + be_bytes32(s.size as nat) + seq![
        (s.flags.isLeading << 2u8) | s.flags.dependsOn,
        (s.flags.isDependedOn << 6u8) | (s.flags.hasRedundancy << 4u8) | s.flags.isNonSync,
        0u8,
        0u8,
    ] + be_bytes32((s.cts as u64) as nat)
}

/// A sample's flags as `trun` and `sdtp` write them (ISO/IEC 14496-12 8.8.3.1 and 8.6.4):
/// in the `trun` entry, after the 32-bit duration and size, is_leading and
/// sample_depends_on fill the low four bits of the first flag byte, is_depended_on,
/// has_redundancy and is_non_sync_sample the top two, next two and lowest bit of the second,
/// then the composition offset; the `sdtp` byte holds is_leading, depends_on,
/// is_depended_on and has_redundancy two bits each from the top.
#[verifier::spinoff_prover]
#[verifier::rlimit(60)]
pub proof fn lemma_sample_flags_bytes(s: Mp4Sample)
    requires
        s.flags.isLeading <= 3,
        s.flags.dependsOn <= 3,
        s.flags.isDependedOn <= 3,
        s.flags.hasRedundancy <= 3,
        s.flags.isNonSync <= 1,
        s.size < 0x1_0000_0000,
        0 <= s.duration < 0x1_0000_0000,
        0 <= s.cts < 0x1_0000_0000,
    ensures
        ({
            let e = trun_entry(s);
            &&& e.len() == 16
            &&& be32_at(e, 0) == s.duration
            &&& be32_at(e, 4) == s.size
            &&& (e[8] >> 2u8) & 3u8 == s.flags.isLeading
            &&& e[8] & 3u8 == s.flags.dependsOn
            &&& e[9] >> 6u8 == s.flags.isDependedOn
            &&& (e[9] >> 4u8) & 3u8 == s.flags.hasRedundancy
            &&& e[9] & 1u8 == s.flags.isNonSync
            &&& e[10] == 0 && e[11] == 0
            &&& be32_at(e, 12) == s.cts
        }),
        ({
            let b = sdtp_byte(s.flags);
            &&& (b >> 6u8) & 3u8 == s.flags.isLeading
            &&& (b >> 4u8) & 3u8 == s.flags.dependsOn
            &&& (b >> 2u8) & 3u8 == s.flags.isDependedOn
            &&& b & 3u8 == s.flags.hasRedundancy
        }),
{
    let f = s.flags;
    let l = f.isLeading;
    let d = f.dependsOn;
    let i = f.isDependedOn;
    let h = f.hasRedundancy;
    let n = f.isNonSync;
    let e = trun_entry(s);
    let du = s.duration as nat;
    let ct = s.cts as nat;
    assert((s.duration as u64) as nat == du);
    assert((s.cts as u64) as nat == ct);
    assert(e.subrange(0, 4) =~= be_bytes32((s.duration as u64) as nat));
    assert(e.subrange(4, 8) =~= be_bytes32(s.size as nat));
    assert(e.subrange(12, 16) =~= be_bytes32((s.cts as u64) as nat));
    lemma_read32_at(e, 0, du);
    lemma_read32_at(e, 4, s.size as nat);
    lemma_read32_at(e, 12, ct);
    assert(((l << 2u8) | d) >> 2u8 & 3u8 == l && ((l << 2u8) | d) & 3u8 == d) by (bit_vector)
        requires l <= 3, d <= 3;
    assert(((i << 6u8) | (h << 4u8) | n) >> 6u8 == i && ((((i << 6u8) | (h << 4u8) | n) >> 4u8) & 3u8) == h
        && ((i << 6u8) | (h << 4u8) | n) & 1u8 == n) by (bit_vector)
        requires i <= 3, h <= 3, n <= 1;
    let b = sdtp_byte(f);
    assert(((((l << 6u8) | (d << 4u8) | (i << 2u8) | h) >> 6u8) & 3u8) == l
        && ((((l << 6u8) | (d << 4u8) | (i << 2u8) | h) >> 4u8) & 3u8) == d
        && ((((l << 6u8) | (d << 4u8) | (i << 2u8) | h) >> 2u8) & 3u8) == i
        && (((l << 6u8) | (d << 4u8) | (i << 2u8) | h) & 3u8) == h) by (bit_vector)
        requires l <= 3, d <= 3, i <= 3, h <= 3;
}

pub open spec fn spec_mfhd(sequenceNumber: u32) -> Seq<u8> {
    box_bytes(
        fourcc('m', 'f', 'h', 'd'),
        Seq::new(4, |i: int| 0u8) + be_bytes32(sequenceNumber as nat),
    )
}

pub open spec fn spec_sdtp(samples: Seq<Mp4Sample>) -> Seq<u8> {
    box_bytes(
        fourcc('s', 'd', 't', 'p'),
        Seq::new(4, |i: int| 0u8) + Seq::new(
            samples.len(),
            |i: int| sdtp_byte(samples[i].flags),
        ),
    )
}

pub open spec fn spec_trun(samples: Seq<Mp4Sample>, offset: nat) -> Seq<u8> {
    box_bytes(
        fourcc('t', 'r', 'u', 'n'),
        seq![0u8, 0, 0x0F, 0x01] + be_bytes32(samples.len()) + be_bytes32(offset) + Seq::new(
            samples.len(),
            |i: int| trun_entry(samples[i]),
        ).flatten(),
    )
}

pub open spec fn spec_traf(id: u32, samples: Seq<Mp4Sample>, baseMediaDecodeTime: i64) -> Seq<u8> {
    let tfhd = box_bytes(
        fourcc('t', 'f', 'h', 'd'),
        Seq::new(4, |i: int| 0u8) + be_bytes32(id as nat),
    );
    let tfdt = box_bytes(
        fourcc('t', 'f', 'd', 't'),
        Seq::new(4, |i: int| 0u8) + be_bytes32((baseMediaDecodeTime as u64) as nat),
    );
    let sdtp = spec_sdtp(samples);
    box_bytes(
        fourcc('t', 'r', 'a', 'f'),
        tfhd + tfdt + spec_trun(samples, (sdtp.len() + 16 + 16 + 8 + 16 + 8 + 8) as nat) + sdtp,
    )
}

/// The `moof` of fragment `sequenceNumber` of track `id` holding `samples`.
pub open spec fn spec_moof(sequenceNumber: u32, id: u32, samples: Seq<Mp4Sample>, baseMediaDecodeTime: i64) -> Seq<u8> {
    box_bytes(
        fourcc('m', 'o', 'o', 'f'),
        spec_mfhd(sequenceNumber) + spec_traf(id, samples, baseMediaDecodeTime),
    )
}

/// Movie fragment box.
pub fn moof(track: &FragmentTrack, baseMediaDecodeTime: i64) -> (r: Vec<u8>)
    requires
        fragment_fits(track),
    ensures
        r@ == spec_moof(track.sequenceNumber, track.id, track.samples@, baseMediaDecodeTime),
{
    let a = mfhd(track.sequenceNumber);
    let b = traf(track, baseMediaDecodeTime);
    let mut payload: Vec<u8> = Vec::new();
    push_all(&mut payload, a.as_slice());
    push_all(&mut payload, b.as_slice());
    box_of([0x6d, 0x6f, 0x6f, 0x66], &payload)
}

/// Movie fragment header box.
pub fn mfhd(sequenceNumber: u32) -> (r: Vec<u8>)
    ensures
        r@ == spec_mfhd(sequenceNumber),
{
    let mut data: Vec<u8> = Vec::new();
    let z4: [u8; 4] = [0; 4];
    push_all(&mut data, &z4);
    push_be32(&mut data, sequenceNumber as u64);
    assert(z4@ =~= Seq::new(4, |i: int| 0u8));
    box_of([0x6d, 0x66, 0x68, 0x64], &data)
}

/// Track fragment box.
pub fn traf(track: &FragmentTrack, baseMediaDecodeTime: i64) -> (r: Vec<u8>)
    requires
        fragment_fits(track),
    ensures
        r@ == spec_traf(track.id, track.samples@, baseMediaDecodeTime),
        r@.len() <= 17 * track.samples@.len() + 200,
{
    let z4: [u8; 4] = [0; 4];
    assert(z4@ =~= Seq::new(4, |i: int| 0u8));
    let mut h: Vec<u8> = Vec::new();
    push_all(&mut h, &z4);
    push_be32(&mut h, track.id as u64);
    let tfhd = box_of([0x74, 0x66, 0x68, 0x64], &h);
    let mut d: Vec<u8> = Vec::new();
    push_all(&mut d, &z4);
    push_be32(&mut d, baseMediaDecodeTime as u64);
    let tfdt = box_of([0x74, 0x66, 0x64, 0x74], &d);
    let sd = sdtp(track);
    let tr = trun(track, sd.len() + 16 + 16 + 8 + 16 + 8 + 8);
    let mut payload: Vec<u8> = Vec::new();
    push_all(&mut payload, tfhd.as_slice());
    push_all(&mut payload, tfdt.as_slice());
    push_all(&mut payload, tr.as_slice());
    push_all(&mut payload, sd.as_slice());
    box_of([0x74, 0x72, 0x61, 0x66], &payload)
}

/// Sample dependency type box.
pub fn sdtp(track: &FragmentTrack) -> (r: Vec<u8>)
    requires
        fragment_fits(track),
    ensures
        r@ == spec_sdtp(track.samples@),
        r@.len() == 12 + track.samples@.len(),
{
    let mut data: Vec<u8> = Vec::new();
    let z4: [u8; 4] = [0; 4];
    push_all(&mut data, &z4);
    let n = track.samples.len();
    let mut i: usize = 0;
    while i < n
        invariant
            n == track.samples@.len(),
            i <= n,
            data@ == z4@ + Seq::new(i as nat, |k: int| sdtp_byte(track.samples@[k].flags)),
        decreases n - i,
    {
        let f = track.samples[i].flags;
        let b = (f.isLeading << 6u8) | (f.dependsOn << 4u8) | (f.isDependedOn << 2u8)
            | f.hasRedundancy;
        data.push(b);
        i = i + 1;
        assert(data@ =~= z4@ + Seq::new(i as nat, |k: int| sdtp_byte(track.samples@[k].flags)));
    }
    assert(z4@ =~= Seq::new(4, |i: int| 0u8));
    box_of([0x73, 0x64, 0x74, 0x70], &data)
}

/// Track fragment run box; `offset` is written as its data offset.
pub fn trun(track: &FragmentTrack, offset: usize) -> (r: Vec<u8>)
    requires
        fragment_fits(track),
    ensures
        r@ == spec_trun(track.samples@, offset as nat),
        r@.len() == 20 + 16 * track.samples@.len(),
{
    let n = track.samples.len();
    let mut data: Vec<u8> = Vec::new();
    let head: [u8; 4] = [0x00, 0x00, 0x0F, 0x01];
    push_all(&mut data, &head);
    push_be32(&mut data, n as u64);
    push_be32(&mut data, offset as u64);
    let ghost prefix = data@;
    let ghost entries = Seq::new(n as nat, |k: int| trun_entry(track.samples@[k]));
    let mut i: usize = 0;
    while i < n
        invariant
            n == track.samples@.len(),
            i <= n,
            entries == Seq::new(n as nat, |k: int| trun_entry(track.samples@[k])),
            prefix.len() == 12,
            data@ == prefix + entries.subrange(0, i as int).flatten(),
            entries.subrange(0, i as int).flatten().len() == 16 * i,
            fragment_fits(track),
        decreases n - i,
    {
        let s = &track.samples[i];
        let ghost before = data@;
        push_be32(&mut data, s.duration as u64);
        push_be32(&mut data, s.size as u64);
        let b0 = (s.flags.isLeading << 2u8) | s.flags.dependsOn;
        let b1 = (s.flags.isDependedOn << 6u8) | (s.flags.hasRedundancy << 4u8) | s.flags.isNonSync;
        data.push(b0);
        data.push(b1);
        data.push(0);
        data.push(0);
        push_be32(&mut data, s.cts as u64);
        proof {
            let pre = entries.subrange(0, i as int);
            assert(entries.subrange(0, i + 1) =~= pre.push(entries[i as int]));
            pre.lemma_flatten_push(entries[i as int]);
            assert(data@ =~= before + trun_entry(track.samples@[i as int]));
        }
        i = i + 1;
    }
    assert(entries.subrange(0, n as int) =~= entries);
    assert(data@ =~= head@ + be_bytes32(n as nat) + be_bytes32(offset as nat) + entries.flatten());
    assert(head@ =~= seq![0u8, 0, 0x0F, 0x01]);
    box_of([0x74, 0x72, 0x75, 0x6e], &data)
}

/// Media data box holding `data`.
pub fn mdat(data: &[u8]) -> (r: Vec<u8>)
    requires
        8 + data@.len() <= usize::MAX,
    ensures
        r@ == box_bytes(fourcc('m', 'd', 'a', 't'), data@),
{
    let t: [u8; 4] = [0x6d, 0x64, 0x61, 0x74];
    let parts: [&[u8]; 1] = [data];
    proof {
        assert(parts@.map_values(|d: &[u8]| d@) =~= seq![data@]);
        seq![data@].lemma_flatten_singleton();
    }
    let r = genBox(&t, &parts);
    assert(t@ =~= fourcc('m', 'd', 'a', 't'));
    r
}

/// Reads the four bytes at `i` of `s` as the value written there.
proof fn lemma_read32_at(s: Seq<u8>, i: int, x: nat)
    requires
        0 <= i,
        i + 4 <= s.len(),
        x < 0x1_0000_0000,
        s.subrange(i, i + 4) == be_bytes32(x),
    ensures
        be32_at(s, i) == x,
{
    lemma_be_bytes32_read(x);
    assert(be32_at(s, i) == be32_at(s.subrange(i, i + 4), 0));
}

/// The movie header (ISO/IEC 14496-12 8.2.2, version 0) is 108 bytes and carries the
/// timescale at byte 20 and the duration at byte 24 of the box, big-endian.
#[verifier::spinoff_prover]
#[verifier::rlimit(60)]
pub proof fn lemma_mvhd_fields(timescale: u32, duration: u32)
    ensures
        spec_mvhd(timescale, duration).len() == 108,
        spec_mvhd(timescale, duration).subrange(4, 8) == fourcc('m', 'v', 'h', 'd'),
        be32_at(spec_mvhd(timescale, duration), 0) == 108,
        be32_at(spec_mvhd(timescale, duration), 20) == timescale,
        be32_at(spec_mvhd(timescale, duration), 24) == duration,
{
    reveal(spec_mvhd);
    assert(MVHD_TAIL().len() == 80);
    let m = spec_mvhd(timescale, duration);
    assert(m.len() == 108);
    assert(m.subrange(0, 4) =~= be_bytes32(108));
    lemma_read32_at(m, 0, 108);
    assert(m.subrange(4, 8) =~= fourcc('m', 'v', 'h', 'd'));
    assert(m.subrange(20, 24) =~= be_bytes32(timescale as nat));
    assert(m.subrange(24, 28) =~= be_bytes32(duration as nat));
    lemma_read32_at(m, 20, timescale as nat);
    lemma_read32_at(m, 24, duration as nat);
}

/// The media header (ISO/IEC 14496-12 8.4.2, version 0) is 32 bytes and carries the
/// timescale at byte 20 and the duration at byte 24 of the box, big-endian.
pub proof fn lemma_mdhd_fields(meta: &Meta)
    ensures
        spec_mdhd(meta).len() == 32,
        spec_mdhd(meta).subrange(4, 8) == fourcc('m', 'd', 'h', 'd'),
        be32_at(spec_mdhd(meta), 20) == meta.timescale,
        be32_at(spec_mdhd(meta), 24) == meta.duration,
{
    reveal(spec_mdhd);
    let d = spec_mdhd(meta);
    assert(d.subrange(4, 8) =~= fourcc('m', 'd', 'h', 'd'));
    assert(d.subrange(20, 24) =~= be_bytes32(meta.timescale as nat));
    assert(d.subrange(24, 28) =~= be_bytes32(meta.duration as nat));
    lemma_read32_at(d, 20, meta.timescale as nat);
    lemma_read32_at(d, 24, meta.duration as nat);
}

/// The track header (ISO/IEC 14496-12 8.3.2, version 0, flags 7: enabled, in movie, in
/// preview) is 92 bytes and carries the track id at byte 20, the duration at byte 28, and
/// the width and height as 16.16 fixed-point numbers at bytes 84 and 88.
#[verifier::spinoff_prover]
#[verifier::rlimit(60)]
pub proof fn lemma_tkhd_fields(meta: &Meta)
    ensures
        spec_tkhd(meta).len() == 92,
        spec_tkhd(meta).subrange(4, 8) == fourcc('t', 'k', 'h', 'd'),
        be32_at(spec_tkhd(meta), 8) == 7,
        be32_at(spec_tkhd(meta), 20) == meta.id,
        be32_at(spec_tkhd(meta), 28) == meta.duration,
        be32_at(spec_tkhd(meta), 84) == (meta.presentWidth as int % 0x10000) * 0x10000,
        be32_at(spec_tkhd(meta), 88) == (meta.presentHeight as int % 0x10000) * 0x10000,
{
    reveal(spec_tkhd);
    assert(TKHD_MID().len() == 52);
    let t = spec_tkhd(meta);
    assert(t.len() == 92);
    assert(t.subrange(4, 8) =~= fourcc('t', 'k', 'h', 'd'));
    assert(t.subrange(8, 12) =~= be_bytes32(7));
    lemma_read32_at(t, 8, 7);
    assert(t.subrange(20, 24) =~= be_bytes32(meta.id as nat));
    assert(t.subrange(28, 32) =~= be_bytes32(meta.duration as nat));
    lemma_read32_at(t, 20, meta.id as nat);
    lemma_read32_at(t, 28, meta.duration as nat);
    let w = meta.presentWidth as int % 0x10000;
    let h = meta.presentHeight as int % 0x10000;
    assert(t.subrange(84, 88) =~= be_bytes32((w * 0x10000) as nat));
    assert(t.subrange(88, 92) =~= be_bytes32((h * 0x10000) as nat));
    lemma_read32_at(t, 84, (w * 0x10000) as nat);
    lemma_read32_at(t, 88, (h * 0x10000) as nat);
}

/// A box reads back as what it was made of: its first four bytes give its length, the
/// next four its type, and the rest its payload.
pub proof fn lemma_box_reads_back(box_type: Seq<u8>, payload: Seq<u8>)
    requires
        box_type.len() == 4,
        8 + payload.len() < 0x1_0000_0000,
    ensures
        be32_at(box_bytes(box_type, payload), 0) == box_bytes(box_type, payload).len(),
        box_bytes(box_type, payload).subrange(4, 8) == box_type,
        box_bytes(box_type, payload).subrange(8, box_bytes(box_type, payload).len() as int) == payload,
{
    let b = box_bytes(box_type, payload);
    lemma_be_bytes32_read((8 + payload.len()) as nat);
    assert(b.subrange(0, 4) =~= be_bytes32((8 + payload.len()) as nat));
    assert(be32_at(b, 0) == be32_at(b.subrange(0, 4), 0));
    assert(b.subrange(4, 8) =~= box_type);
    assert(b.subrange(8, b.len() as int) =~= payload);
}

} // verus!
