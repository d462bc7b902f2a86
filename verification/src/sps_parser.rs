//! H.264 sequence parameter set parsing.
use vstd::prelude::*;
use vstd::string::StringExecFns;
use crate::exp_golomb::{
    ExpGolomb, ExpGolombError, GolombState, golomb_wf, spec_read_bits, spec_read_seg,
    spec_read_ueg, bits_value, pos, lemma_aligned_byte,
};

verus! {

// ---------------------------------------------------------------- emulation prevention

/// Whether byte `i` of `src` is an emulation-prevention byte: a 0x03 after two zero bytes.
pub open spec fn is_epb(src: Seq<u8>, i: int) -> bool {
    i >= 2 && src[i] == 0x03 && src[i - 1] == 0x00 && src[i - 2] == 0x00
}

/// The first `n` bytes of `src` with emulation-prevention bytes removed.
pub open spec fn rbsp_prefix(src: Seq<u8>, n: int) -> Seq<u8>
    decreases n,
{
    if n <= 0 {
        Seq::empty()
    } else if is_epb(src, n - 1) {
        rbsp_prefix(src, n - 1)
    } else {
        rbsp_prefix(src, n - 1).push(src[n - 1])
    }
}

proof fn lemma_rbsp_len(src: Seq<u8>, n: int)
    requires
        0 <= n,
    ensures
        rbsp_prefix(src, n).len() <= n,
    decreases n,
{
    if n > 0 {
        lemma_rbsp_len(src, n - 1);
    }
}

/// Removes emulation-prevention bytes (0x03 following 00 00).
pub fn _ebsp2rbsp(uint8array: &[u8]) -> (r: Vec<u8>)
    ensures
        r@ == rbsp_prefix(uint8array@, uint8array@.len() as int),
        r@.len() <= uint8array@.len(),
{
    let src = uint8array;
    let src_length = src.len();
    let mut dst: Vec<u8> = Vec::new();
    let mut i: usize = 0;
    while i < src_length
        invariant
            src_length == src@.len(),
            i <= src_length,
            dst@ == rbsp_prefix(src@, i as int),
        decreases src_length - i,
    {
        if i >= 2 && src[i] == 0x03 && src[i - 1] == 0x00 && src[i - 2] == 0x00 {
            // skip the escape byte
        } else {
            dst.push(src[i]);
        }
        i = i + 1;
    }
    proof {
        lemma_rbsp_len(src@, src_length as int);
    }
    dst
}

// ---------------------------------------------------------------- syntax

/// Chains a reader step with what follows it.
pub open spec fn bind<A, B>(
    r: Result<(A, GolombState), ExpGolombError>,
    f: spec_fn(A, GolombState) -> Result<(B, GolombState), ExpGolombError>,
) -> Result<(B, GolombState), ExpGolombError> {
    match r {
        Err(e) => Err(e),
        Ok((a, s)) => f(a, s),
    }
}

/// Reads `n` bits when `cond`, else reads nothing.
pub open spec fn read_if(cond: bool, s: GolombState, n: nat) -> Result<(nat, GolombState), ExpGolombError> {
    if cond {
        spec_read_bits(s, n)
    } else {
        Ok((0, s))
    }
}

/// Profiles whose SPS carries chroma format, bit depth and scaling matrices.
pub open spec fn is_high_profile(p: nat) -> bool {
    p == 100 || p == 110 || p == 122 || p == 244 || p == 44 || p == 83 || p == 86 || p == 118
        || p == 128 || p == 138 || p == 144
}

/// `_skipScalingList`, from element `j` on, with the running `last`/`next` scale.
pub open spec fn spec_skip_scaling_list(
    s: GolombState,
    count: nat,
    j: nat,
    last: int,
    next: int,
) -> Result<((), GolombState), ExpGolombError>
    decreases count - j,
{
    if j >= count {
        Ok(((), s))
    } else if next != 0 {
        match spec_read_seg(s) {
            Err(e) => Err(e),
            Ok((delta, s1)) => {
                let nx = trunc_mod256(last + delta + 256);
                spec_skip_scaling_list(s1, count, j + 1, if nx == 0 { last } else { nx }, nx)
            },
        }
    } else {
        spec_skip_scaling_list(s, count, j + 1, last, next)
    }
}

/// Remainder by 256 that keeps the sign of `t` (as `%` does on signed integers).
pub open spec fn trunc_mod256(t: int) -> int {
    if t >= 0 {
        t % 256
    } else {
        -((-t) % 256)
    }
}

/// The scaling lists of a scaling matrix, from list `i` on.
pub open spec fn spec_scaling_matrix(s: GolombState, count: nat, i: nat) -> Result<((), GolombState), ExpGolombError>
    decreases count - i,
{
    if i >= count {
        Ok(((), s))
    } else {
        match spec_read_bits(s, 1) {
            Err(e) => Err(e),
            Ok((f, s1)) => if f == 1 {
                match spec_skip_scaling_list(s1, if i < 6 { 16 } else { 64 }, 0, 8, 8) {
                    Err(e) => Err(e),
                    Ok((_u, s2)) => spec_scaling_matrix(s2, count, i + 1),
                }
            } else {
                spec_scaling_matrix(s1, count, i + 1)
            },
        }
    }
}

/// Chroma format idc and bit depth (minus 8) of a high profile SPS.
pub open spec fn spec_chroma_part(s: GolombState) -> Result<((nat, nat), GolombState), ExpGolombError> {
    bind(
        spec_read_ueg(s),
        |cfi: nat, s1: GolombState|
            bind(
                read_if(cfi == 3, s1, 1),
                |_sep: nat, s2: GolombState|
                    bind(
                        spec_read_ueg(s2),
                        |bd: nat, s3: GolombState|
                            bind(
                                spec_read_ueg(s3),
                                |_bdc: nat, s4: GolombState|
                                    bind(
                                        spec_read_bits(s4, 1),
                                        |_qp: nat, s5: GolombState|
                                            bind(
                                                spec_read_bits(s5, 1),
                                                |m: nat, s6: GolombState|
                                                    if m == 1 {
                                                        bind(
                                                            spec_scaling_matrix(
                                                                s6,
                                                                if cfi != 3 { 8 } else { 12 },
                                                                0,
                                                            ),
                                                            |_u: (), s7: GolombState| Ok(((cfi, bd), s7)),
                                                        )
                                                    } else {
                                                        Ok(((cfi, bd), s6))
                                                    },
                                            ),
                                    ),
                            ),
                    ),
            ),
    )
}

/// `n` signed codes skipped.
pub open spec fn spec_skip_segs(s: GolombState, n: nat) -> Result<((), GolombState), ExpGolombError>
    decreases n,
{
    if n == 0 {
        Ok(((), s))
    } else {
        match spec_read_seg(s) {
            Err(e) => Err(e),
            Ok((_v, s1)) => spec_skip_segs(s1, (n - 1) as nat),
        }
    }
}

/// From `log2_max_frame_num_minus4` through the picture order count fields.
pub open spec fn spec_poc_part(s: GolombState) -> Result<((), GolombState), ExpGolombError> {
    bind(
        spec_read_ueg(s),
        |_l: nat, s1: GolombState|
            bind(
                spec_read_ueg(s1),
                |poc: nat, s2: GolombState|
                    if poc == 0 {
                        bind(spec_read_ueg(s2), |_x: nat, s3: GolombState| Ok(((), s3)))
                    } else if poc == 1 {
                        bind(
                            spec_read_bits(s2, 1),
                            |_d: nat, s3: GolombState|
                                bind(
                                    spec_read_seg(s3),
                                    |_a: int, s4: GolombState|
                                        bind(
                                            spec_read_seg(s4),
                                            |_b: int, s5: GolombState|
                                                bind(
                                                    spec_read_ueg(s5),
                                                    |n: nat, s6: GolombState| spec_skip_segs(s6, n),
                                                ),
                                        ),
                                ),
                        )
                    } else {
                        Ok(((), s2))
                    },
            ),
    )
}

/// Frame geometry fields of an SPS.
pub struct SpsGeometry {
    pub ref_frames: nat,
    pub pic_width_in_mbs_minus1: nat,
    pub pic_height_in_map_units_minus1: nat,
    pub frame_mbs_only_flag: nat,
    pub crop_left: nat,
    pub crop_right: nat,
    pub crop_top: nat,
    pub crop_bottom: nat,
}

/// From `max_num_ref_frames` through the frame cropping offsets.
pub open spec fn spec_geometry_part(s: GolombState) -> Result<(SpsGeometry, GolombState), ExpGolombError> {
    bind(
        spec_read_ueg(s),
        |rf: nat, s1: GolombState|
            bind(
                spec_read_bits(s1, 1),
                |_g: nat, s2: GolombState|
                    bind(
                        spec_read_ueg(s2),
                        |w: nat, s3: GolombState|
                            bind(
                                spec_read_ueg(s3),
                                |h: nat, s4: GolombState|
                                    bind(
                                        spec_read_bits(s4, 1),
                                        |fmo: nat, s5: GolombState|
                                            bind(
                                                read_if(fmo == 0, s5, 1),
                                                |_m: nat, s6: GolombState|
                                                    bind(
                                                        spec_read_bits(s6, 1),
                                                        |_d: nat, s7: GolombState|
                                                            bind(
                                                                spec_crop_part(s7),
                                                                |c: (nat, nat, nat, nat), s8: GolombState|
                                                                    Ok((SpsGeometry {
                                                                        ref_frames: rf,
                                                                        pic_width_in_mbs_minus1: w,
                                                                        pic_height_in_map_units_minus1: h,
                                                                        frame_mbs_only_flag: fmo,
                                                                        crop_left: c.0,
                                                                        crop_right: c.1,
                                                                        crop_top: c.2,
                                                                        crop_bottom: c.3,
                                                                    }, s8)),
                                                            ),
                                                    ),
                                            ),
                                    ),
                            ),
                    ),
            ),
    )
}

/// The frame cropping flag and, when set, the four offsets.
pub open spec fn spec_crop_part(s: GolombState) -> Result<((nat, nat, nat, nat), GolombState), ExpGolombError> {
    bind(
        spec_read_bits(s, 1),
        |f: nat, s1: GolombState|
            if f == 1 {
                bind(
                    spec_read_ueg(s1),
                    |a: nat, s2: GolombState|
                        bind(
                            spec_read_ueg(s2),
                            |b: nat, s3: GolombState|
                                bind(
                                    spec_read_ueg(s3),
                                    |c: nat, s4: GolombState|
                                        bind(
                                            spec_read_ueg(s4),
                                            |d: nat, s5: GolombState| Ok(((a, b, c, d), s5)),
                                        ),
                                ),
                        ),
                )
            } else {
                Ok(((0, 0, 0, 0), s1))
            },
    )
}

pub open spec fn SAR_W() -> Seq<nat> {
    seq![1nat, 12, 10, 16, 40, 24, 20, 32, 80, 18, 15, 64, 160, 4, 3, 2]
}

pub open spec fn SAR_H() -> Seq<nat> {
    seq![1nat, 11, 11, 11, 33, 11, 11, 11, 33, 11, 11, 33, 99, 3, 2, 1]
}

/// The aspect ratio info of the VUI: sample aspect width and height.
pub open spec fn spec_aspect_part(s: GolombState) -> Result<((nat, nat), GolombState), ExpGolombError> {
    bind(
        spec_read_bits(s, 1),
        |present: nat, s1: GolombState|
            if present != 1 {
                Ok(((1nat, 1nat), s1))
            } else {
                bind(
                    spec_read_bits(s1, 8),
                    |idc: nat, s2: GolombState|
                        if 0 < idc && idc < 16 {
                            Ok(((SAR_W()[idc - 1], SAR_H()[idc - 1]), s2))
                        } else if idc == 255 {
                            bind(
                                spec_read_bits(s2, 8),
                                |a: nat, s3: GolombState|
                                    bind(
                                        spec_read_bits(s3, 8),
                                        |b: nat, s4: GolombState|
                                            bind(
                                                spec_read_bits(s4, 8),
                                                |c: nat, s5: GolombState|
                                                    bind(
                                                        spec_read_bits(s5, 8),
                                                        |d: nat, s6: GolombState|
                                                            Ok(((a * 256 + b, c * 256 + d), s6)),
                                                    ),
                                            ),
                                    ),
                            )
                        } else {
                            Ok(((1nat, 1nat), s2))
                        },
                )
            },
    )
}

/// Timing-relevant fields of the VUI.
pub struct VuiSyntax {
    pub sar_width: nat,
    pub sar_height: nat,
    pub fps_fixed: bool,
    pub fps_num: nat,
    pub fps_den: nat,
}

/// The overscan, video signal type and chroma location parts of the VUI, skipped.
pub open spec fn spec_vui_skip_part(s: GolombState) -> Result<((), GolombState), ExpGolombError> {
    bind(
        spec_read_bits(s, 1),
        |ov: nat, s1: GolombState|
            bind(
                read_if(ov == 1, s1, 1),
                |_o: nat, s2: GolombState|
                    bind(
                        spec_read_bits(s2, 1),
                        |vs: nat, s3: GolombState|
                            bind(
                                if vs == 1 {
                                    bind(
                                        spec_read_bits(s3, 4),
                                        |_f: nat, s4: GolombState|
                                            bind(
                                                spec_read_bits(s4, 1),
                                                |cd: nat, s5: GolombState| read_if(cd == 1, s5, 24),
                                            ),
                                    )
                                } else {
                                    Ok((0nat, s3))
                                },
                                |_v: nat, s6: GolombState|
                                    bind(
                                        spec_read_bits(s6, 1),
                                        |cl: nat, s7: GolombState|
                                            if cl == 1 {
                                                bind(
                                                    spec_read_ueg(s7),
                                                    |_t: nat, s8: GolombState|
                                                        bind(
                                                            spec_read_ueg(s8),
                                                            |_b: nat, s9: GolombState| Ok(((), s9)),
                                                        ),
                                                )
                                            } else {
                                                Ok(((), s7))
                                            },
                                    ),
                            ),
                    ),
            ),
    )
}

/// The VUI parameters, when present.
pub open spec fn spec_vui_part(s: GolombState) -> Result<(VuiSyntax, GolombState), ExpGolombError> {
    bind(
        spec_read_bits(s, 1),
        |present: nat, s1: GolombState|
            if present != 1 {
                Ok((VuiSyntax { sar_width: 1, sar_height: 1, fps_fixed: true, fps_num: 0, fps_den: 0 }, s1))
            } else {
                bind(
                    spec_aspect_part(s1),
                    |sar: (nat, nat), s2: GolombState|
                        bind(
                            spec_vui_skip_part(s2),
                            |_u: (), s3: GolombState|
                                bind(
                                    spec_read_bits(s3, 1),
                                    |ti: nat, s4: GolombState|
                                        if ti == 1 {
                                            bind(
                                                spec_read_bits(s4, 32),
                                                |nu: nat, s5: GolombState|
                                                    bind(
                                                        spec_read_bits(s5, 32),
                                                        |ts: nat, s6: GolombState|
                                                            bind(
                                                                spec_read_bits(s6, 1),
                                                                |fx: nat, s7: GolombState|
                                                                    Ok((VuiSyntax {
                                                                        sar_width: sar.0,
                                                                        sar_height: sar.1,
                                                                        fps_fixed: fx == 1,
                                                                        fps_num: ts,
                                                                        fps_den: nu * 2,
                                                                    }, s7)),
                                                            ),
                                                    ),
                                            )
                                        } else {
                                            Ok((VuiSyntax {
                                                sar_width: sar.0,
                                                sar_height: sar.1,
                                                fps_fixed: true,
                                                fps_num: 0,
                                                fps_den: 0,
                                            }, s4))
                                        },
                                ),
                        ),
                )
            },
    )
}


// ---------------------------------------------------------------- reading the syntax

/// Skips one scaling list of `count` entries.
pub fn _skipScalingList(gb: &mut ExpGolomb, count: u32) -> (r: Result<(), ExpGolombError>)
    requires
        golomb_wf(old(gb)@),
    ensures
        golomb_wf(final(gb)@),
        final(gb)@.buf == old(gb)@.buf,
        match spec_skip_scaling_list(old(gb)@, count as nat, 0, 8, 8) {
            Ok((_u, s)) => r is Ok && final(gb)@ == s,
            Err(e) => r == Err::<(), ExpGolombError>(e),
        },
{
    let mut last_scale: i64 = 8;
    let mut next_scale: i64 = 8;
    let mut i: u32 = 0;
    while i < count
        invariant
            golomb_wf(gb@),
            gb@.buf == old(gb)@.buf,
            i <= count,
            -256 < last_scale < 256,
            -256 < next_scale < 256,
            spec_skip_scaling_list(old(gb)@, count as nat, 0, 8, 8) == spec_skip_scaling_list(
                gb@,
                count as nat,
                i as nat,
                last_scale as int,
                next_scale as int,
            ),
        decreases count - i,
    {
        if next_scale != 0 {
            let delta_scale = gb.readSEG()?;
            let t: i64 = last_scale + delta_scale as i64 + 256;
            next_scale = if t >= 0 { t % 256 } else { -((-t) % 256) };
        }
        last_scale = if next_scale == 0 { last_scale } else { next_scale };
        i = i + 1;
    }
    Ok(())
}

fn scaling_matrix(gb: &mut ExpGolomb, count: u32) -> (r: Result<(), ExpGolombError>)
    requires
        golomb_wf(old(gb)@),
    ensures
        golomb_wf(final(gb)@),
        final(gb)@.buf == old(gb)@.buf,
        match spec_scaling_matrix(old(gb)@, count as nat, 0) {
            Ok((_u, s)) => r is Ok && final(gb)@ == s,
            Err(e) => r == Err::<(), ExpGolombError>(e),
        },
{
    let mut i: u32 = 0;
    while i < count
        invariant
            golomb_wf(gb@),
            gb@.buf == old(gb)@.buf,
            i <= count,
            spec_scaling_matrix(old(gb)@, count as nat, 0) == spec_scaling_matrix(
                gb@,
                count as nat,
                i as nat,
            ),
        decreases count - i,
    {
        if gb.readBool()? {
            if i < 6 {
                _skipScalingList(gb, 16)?;
            } else {
                _skipScalingList(gb, 64)?;
            }
        }
        i = i + 1;
    }
    Ok(())
}

fn chroma_part(gb: &mut ExpGolomb) -> (r: Result<(u32, u32), ExpGolombError>)
    requires
        golomb_wf(old(gb)@),
    ensures
        golomb_wf(final(gb)@),
        final(gb)@.buf == old(gb)@.buf,
        match spec_chroma_part(old(gb)@) {
            Ok((v, s)) => r == Ok::<(u32, u32), ExpGolombError>((v.0 as u32, v.1 as u32))
                && final(gb)@ == s && v.0 <= u32::MAX && v.1 <= u32::MAX,
            Err(e) => r == Err::<(u32, u32), ExpGolombError>(e),
        },
{
    let chroma_format_idc = gb.readUEG()?;
    if chroma_format_idc == 3 {
        gb.readBits(1)?;  // separate_colour_plane_flag
    }
    let bit_depth_luma_minus8 = gb.readUEG()?;
    gb.readUEG()?;  // bit_depth_chroma_minus8
    gb.readBits(1)?;  // qpprime_y_zero_transform_bypass_flag
    if gb.readBool()? {
        // seq_scaling_matrix_present_flag
        let scaling_list_count: u32 = if chroma_format_idc != 3 { 8 } else { 12 };
        scaling_matrix(gb, scaling_list_count)?;
    }
    Ok((chroma_format_idc, bit_depth_luma_minus8))
}

fn skip_segs(gb: &mut ExpGolomb, n: u32) -> (r: Result<(), ExpGolombError>)
    requires
        golomb_wf(old(gb)@),
    ensures
        golomb_wf(final(gb)@),
        final(gb)@.buf == old(gb)@.buf,
        match spec_skip_segs(old(gb)@, n as nat) {
            Ok((_u, s)) => r is Ok && final(gb)@ == s,
            Err(e) => r == Err::<(), ExpGolombError>(e),
        },
{
    let mut i: u32 = 0;
    while i < n
        invariant
            golomb_wf(gb@),
            gb@.buf == old(gb)@.buf,
            i <= n,
            spec_skip_segs(old(gb)@, n as nat) == spec_skip_segs(gb@, (n - i) as nat),
        decreases n - i,
    {
        gb.readSEG()?;  // offset_for_ref_frame
        i = i + 1;
    }
    Ok(())
}

fn poc_part(gb: &mut ExpGolomb) -> (r: Result<(), ExpGolombError>)
    requires
        golomb_wf(old(gb)@),
    ensures
        golomb_wf(final(gb)@),
        final(gb)@.buf == old(gb)@.buf,
        match spec_poc_part(old(gb)@) {
            Ok((_u, s)) => r is Ok && final(gb)@ == s,
            Err(e) => r == Err::<(), ExpGolombError>(e),
        },
{
    gb.readUEG()?;  // log2_max_frame_num_minus4
    let pic_order_cnt_type = gb.readUEG()?;
    if pic_order_cnt_type == 0 {
        gb.readUEG()?;  // log2_max_pic_order_cnt_lsb_minus_4
    } else if pic_order_cnt_type == 1 {
        gb.readBits(1)?;  // delta_pic_order_always_zero_flag
        gb.readSEG()?;  // offset_for_non_ref_pic
        gb.readSEG()?;  // offset_for_top_to_bottom_field
        let num_ref_frames_in_pic_order_cnt_cycle = gb.readUEG()?;
        skip_segs(gb, num_ref_frames_in_pic_order_cnt_cycle)?;
    }
    Ok(())
}


fn crop_part(gb: &mut ExpGolomb) -> (r: Result<(u32, u32, u32, u32), ExpGolombError>)
    requires
        golomb_wf(old(gb)@),
    ensures
        golomb_wf(final(gb)@),
        final(gb)@.buf == old(gb)@.buf,
        match spec_crop_part(old(gb)@) {
            Ok((c, s)) => r is Ok && final(gb)@ == s && r.unwrap().0 as nat == c.0
                && r.unwrap().1 as nat == c.1 && r.unwrap().2 as nat == c.2 && r.unwrap().3 as nat
                == c.3,
            Err(e) => r == Err::<(u32, u32, u32, u32), ExpGolombError>(e),
        },
{
    let frame_cropping_flag = gb.readBool()?;
    if frame_cropping_flag {
        let frame_crop_left_offset = gb.readUEG()?;
        let frame_crop_right_offset = gb.readUEG()?;
        let frame_crop_top_offset = gb.readUEG()?;
        let frame_crop_bottom_offset = gb.readUEG()?;
        Ok((frame_crop_left_offset, frame_crop_right_offset, frame_crop_top_offset, frame_crop_bottom_offset))
    } else {
        Ok((0, 0, 0, 0))
    }
}

/// Geometry fields as read.
pub struct Geometry {
    pub ref_frames: u32,
    pub pic_width_in_mbs_minus1: u32,
    pub pic_height_in_map_units_minus1: u32,
    pub frame_mbs_only_flag: u32,
    pub frame_crop_left_offset: u32,
    pub frame_crop_right_offset: u32,
    pub frame_crop_top_offset: u32,
    pub frame_crop_bottom_offset: u32,
}

pub open spec fn geometry_is(g: Geometry, sg: SpsGeometry) -> bool {
    &&& g.ref_frames as nat == sg.ref_frames
    &&& g.pic_width_in_mbs_minus1 as nat == sg.pic_width_in_mbs_minus1
    &&& g.pic_height_in_map_units_minus1 as nat == sg.pic_height_in_map_units_minus1
    &&& g.frame_mbs_only_flag as nat == sg.frame_mbs_only_flag
    &&& g.frame_crop_left_offset as nat == sg.crop_left
    &&& g.frame_crop_right_offset as nat == sg.crop_right
    &&& g.frame_crop_top_offset as nat == sg.crop_top
    &&& g.frame_crop_bottom_offset as nat == sg.crop_bottom
    &&& sg.frame_mbs_only_flag <= 1
}

fn geometry_part(gb: &mut ExpGolomb) -> (r: Result<Geometry, ExpGolombError>)
    requires
        golomb_wf(old(gb)@),
    ensures
        golomb_wf(final(gb)@),
        final(gb)@.buf == old(gb)@.buf,
        match spec_geometry_part(old(gb)@) {
            Ok((g, s)) => r is Ok && final(gb)@ == s && geometry_is(r.unwrap(), g),
            Err(e) => r is Err && r->Err_0 == e,
        },
{
    let ref_frames = gb.readUEG()?;  // max_num_ref_frames
    gb.readBits(1)?;  // gaps_in_frame_num_value_allowed_flag
    let pic_width_in_mbs_minus1 = gb.readUEG()?;
    let pic_height_in_map_units_minus1 = gb.readUEG()?;
    let ghost s5 = gb@;
    let frame_mbs_only_flag = gb.readBits(1)?;
    proof {
        crate::exp_golomb::lemma_one_bit(s5);
    }
    if frame_mbs_only_flag == 0 {
        gb.readBits(1)?;  // mb_adaptive_frame_field_flag
    }
    gb.readBits(1)?;  // direct_8x8_inference_flag
    let (l, rr, t, b) = crop_part(gb)?;
    Ok(Geometry {
        ref_frames,
        pic_width_in_mbs_minus1,
        pic_height_in_map_units_minus1,
        frame_mbs_only_flag,
        frame_crop_left_offset: l,
        frame_crop_right_offset: rr,
        frame_crop_top_offset: t,
        frame_crop_bottom_offset: b,
    })
}

fn sar_table(idx: u32) -> (r: (u32, u32))
    requires
        idx < 16,
    ensures
        r.0 as nat == SAR_W()[idx as int],
        r.1 as nat == SAR_H()[idx as int],
{
    let sar_w_table: [u32; 16] = [1, 12, 10, 16, 40, 24, 20, 32, 80, 18, 15, 64, 160, 4, 3, 2];
    let sar_h_table: [u32; 16] = [1, 11, 11, 11, 33, 11, 11, 11, 33, 11, 11, 33, 99, 3, 2, 1];
    assert(sar_w_table@.map_values(|x: u32| x as nat) =~= SAR_W());
    assert(sar_h_table@.map_values(|x: u32| x as nat) =~= SAR_H());
    (sar_w_table[idx as usize], sar_h_table[idx as usize])
}

fn aspect_part(gb: &mut ExpGolomb) -> (r: Result<(u32, u32), ExpGolombError>)
    requires
        golomb_wf(old(gb)@),
    ensures
        golomb_wf(final(gb)@),
        final(gb)@.buf == old(gb)@.buf,
        match spec_aspect_part(old(gb)@) {
            Ok((v, s)) => r is Ok && final(gb)@ == s && r.unwrap().0 as nat == v.0
                && r.unwrap().1 as nat == v.1 && v.0 <= 0xFFFF && v.1 <= 0xFFFF,
            Err(e) => r == Err::<(u32, u32), ExpGolombError>(e),
        },
{
    let mut sar_width: u32 = 1;
    let mut sar_height: u32 = 1;
    if gb.readBool()? {
        // aspect_ratio_info_present_flag
        let ghost s1 = gb@;
        let aspect_ratio_idc = gb.readByte()?;
        proof {
            crate::exp_golomb::lemma_byte_bound(s1);
        }
        if aspect_ratio_idc > 0 && aspect_ratio_idc < 16 {
            let (w, h) = sar_table(aspect_ratio_idc - 1);
            sar_width = w;
            sar_height = h;
        } else if aspect_ratio_idc == 255 {
            let ghost s2 = gb@;
            let a = gb.readByte()?;
            let ghost s3 = gb@;
            let b = gb.readByte()?;
            let ghost s4 = gb@;
            let c = gb.readByte()?;
            let ghost s5 = gb@;
            let d = gb.readByte()?;
            proof {
                crate::exp_golomb::lemma_byte_bound(s2);
                crate::exp_golomb::lemma_byte_bound(s3);
                crate::exp_golomb::lemma_byte_bound(s4);
                crate::exp_golomb::lemma_byte_bound(s5);
            }
            sar_width = a * 256 + b;
            sar_height = c * 256 + d;
        }
    }
    Ok((sar_width, sar_height))
}

fn vui_skip_part(gb: &mut ExpGolomb) -> (r: Result<(), ExpGolombError>)
    requires
        golomb_wf(old(gb)@),
    ensures
        golomb_wf(final(gb)@),
        final(gb)@.buf == old(gb)@.buf,
        match spec_vui_skip_part(old(gb)@) {
            Ok((_u, s)) => r is Ok && final(gb)@ == s,
            Err(e) => r == Err::<(), ExpGolombError>(e),
        },
{
    if gb.readBool()? {
        // overscan_info_present_flag
        gb.readBool()?;  // overscan_appropriate_flag
    }
    if gb.readBool()? {
        // video_signal_type_present_flag
        gb.readBits(4)?;  // video_format & video_full_range_flag
        if gb.readBool()? {
            // colour_description_present_flag
            gb.readBits(24)?;  // colour_primaries & transfer_characteristics & matrix_coefficients
        }
    }
    if gb.readBool()? {
        // chroma_loc_info_present_flag
        gb.readUEG()?;  // chroma_sample_loc_type_top_field
        gb.readUEG()?;  // chroma_sample_loc_type_bottom_field
    }
    Ok(())
}

/// Timing-relevant VUI fields as read.
pub struct Vui {
    pub sar_width: u32,
    pub sar_height: u32,
    pub fps_fixed: bool,
    pub fps_num: u32,
    pub fps_den: u64,
}

pub open spec fn vui_is(v: Vui, sv: VuiSyntax) -> bool {
    &&& v.sar_width as nat == sv.sar_width
    &&& v.sar_height as nat == sv.sar_height
    &&& v.fps_fixed == sv.fps_fixed
    &&& v.fps_num as nat == sv.fps_num
    &&& v.fps_den as nat == sv.fps_den
    &&& v.sar_width <= 0xFFFF
    &&& v.sar_height <= 0xFFFF
}

fn vui_part(gb: &mut ExpGolomb) -> (r: Result<Vui, ExpGolombError>)
    requires
        golomb_wf(old(gb)@),
    ensures
        golomb_wf(final(gb)@),
        final(gb)@.buf == old(gb)@.buf,
        match spec_vui_part(old(gb)@) {
            Ok((v, s)) => r is Ok && final(gb)@ == s && vui_is(r.unwrap(), v),
            Err(e) => r is Err && r->Err_0 == e,
        },
{
    let vui_parameters_present_flag = gb.readBool()?;
    if !vui_parameters_present_flag {
        return Ok(Vui { sar_width: 1, sar_height: 1, fps_fixed: true, fps_num: 0, fps_den: 0 });
    }
    let (sar_width, sar_height) = aspect_part(gb)?;
    vui_skip_part(gb)?;
    if gb.readBool()? {
        // timing_info_present_flag
        let num_units_in_tick = gb.readBits(32)?;
        let time_scale = gb.readBits(32)?;
        let fps_fixed = gb.readBool()?;  // fixed_frame_rate_flag
        Ok(Vui {
            sar_width,
            sar_height,
            fps_fixed,
            fps_num: time_scale,
            fps_den: num_units_in_tick as u64 * 2,
        })
    } else {
        Ok(Vui { sar_width, sar_height, fps_fixed: true, fps_num: 0, fps_den: 0 })
    }
}


// ---------------------------------------------------------------- the whole SPS

/// The syntax elements of an SPS that its derived values depend on.
pub struct SpsSyntax {
    pub profile_idc: nat,
    pub level_idc: nat,
    pub chroma_format_idc: nat,
    pub bit_depth_minus8: nat,
    pub geometry: SpsGeometry,
    pub vui: VuiSyntax,
}

/// The SPS syntax read from the first bit of the RBSP.
pub open spec fn spec_sps_syntax(s0: GolombState) -> Result<(SpsSyntax, GolombState), ExpGolombError> {
    bind(
        spec_read_bits(s0, 8),
        |_nal: nat, s1: GolombState|
            bind(
                spec_read_bits(s1, 8),
                |p: nat, s2: GolombState|
                    bind(
                        spec_read_bits(s2, 8),
                        |_cf: nat, s3: GolombState|
                            bind(
                                spec_read_bits(s3, 8),
                                |l: nat, s4: GolombState|
                                    bind(
                                        spec_read_ueg(s4),
                                        |_id: nat, s5: GolombState|
                                            spec_sps_rest(p, l, s5),
                                    ),
                            ),
                    ),
            ),
    )
}

/// Everything after `seq_parameter_set_id`.
pub open spec fn spec_sps_rest(p: nat, l: nat, s5: GolombState) -> Result<(SpsSyntax, GolombState), ExpGolombError> {
    bind(
        if is_high_profile(p) {
            spec_chroma_part(s5)
        } else {
            Ok(((1nat, 0nat), s5))
        },
        |cb: (nat, nat), s6: GolombState|
            bind(
                spec_poc_part(s6),
                |_u: (), s7: GolombState|
                    bind(
                        spec_geometry_part(s7),
                        |g: SpsGeometry, s8: GolombState|
                            bind(
                                spec_vui_part(s8),
                                |v: VuiSyntax, s9: GolombState|
                                    Ok((SpsSyntax {
                                        profile_idc: p,
                                        level_idc: l,
                                        chroma_format_idc: cb.0,
                                        bit_depth_minus8: cb.1,
                                        geometry: g,
                                        vui: v,
                                    }, s9)),
                            ),
                    ),
            ),
    )
}

pub open spec fn chroma_format_of(cfi: nat) -> nat {
    if cfi == 0 { 0 } else if cfi == 1 { 420 } else if cfi == 2 { 422 } else if cfi == 3 { 444 } else { 420 }
}

pub open spec fn crop_unit_x(cfi: nat) -> int {
    if cfi == 0 { 1 } else if cfi == 3 { 1 } else { 2 }
}

pub open spec fn crop_unit_y(cfi: nat, fmo: nat) -> int {
    if cfi == 0 {
        2 - fmo
    } else {
        (if cfi == 1 { 2int } else { 1int }) * (2 - fmo)
    }
}

pub open spec fn codec_width_of(syn: SpsSyntax) -> int {
    (syn.geometry.pic_width_in_mbs_minus1 + 1) * 16 - (syn.geometry.crop_left
        + syn.geometry.crop_right) * crop_unit_x(syn.chroma_format_idc)
}

pub open spec fn codec_height_of(syn: SpsSyntax) -> int {
    (2 - syn.geometry.frame_mbs_only_flag) * ((syn.geometry.pic_height_in_map_units_minus1 + 1)
        * 16) - (syn.geometry.crop_top + syn.geometry.crop_bottom) * crop_unit_y(
        syn.chroma_format_idc,
        syn.geometry.frame_mbs_only_flag,
    )
}

/// The smallest integer not below `a / b`, for `b > 0`.
pub open spec fn ceil_div(a: int, b: int) -> int {
    -((-a) / b)
}

/// Width after applying the sample aspect ratio, rounded up.
pub open spec fn present_width_of(syn: SpsSyntax) -> int {
    if syn.vui.sar_height == 0 {
        codec_width_of(syn)
    } else {
        ceil_div(codec_width_of(syn) * syn.vui.sar_width, syn.vui.sar_height as int)
    }
}

pub open spec fn fps_of(v: VuiSyntax) -> nat {
    if v.fps_den == 0 { 0 } else { v.fps_num / v.fps_den }
}

pub open spec fn profile_string_of(p: nat) -> Seq<char> {
    if p == 66 {
        "Baseline"@
    } else if p == 77 {
        "Main"@
    } else if p == 88 {
        "Extended"@
    } else if p == 100 {
        "High"@
    } else if p == 110 {
        "High10"@
    } else if p == 122 {
        "High422"@
    } else if p == 244 {
        "High444"@
    } else {
        "Unknown"@
    }
}

pub open spec fn chroma_format_string_of(c: nat) -> Seq<char> {
    if c == 420 {
        "4:2:0"@
    } else if c == 422 {
        "4:2:2"@
    } else if c == 444 {
        "4:4:4"@
    } else {
        "Unknown"@
    }
}

pub open spec fn digit_char(d: nat) -> char {
    (48 + d) as char
}

/// Decimal digits of `n`.
pub open spec fn dec_string(n: nat) -> Seq<char>
    decreases n,
{
    if n < 10 {
        seq![digit_char(n)]
    } else {
        dec_string(n / 10).push(digit_char(n % 10))
    }
}

/// `level_idc / 10` written with one decimal, as "3.1" for 31.
pub open spec fn level_string_of(l: nat) -> Seq<char> {
    dec_string(l / 10) + seq!['.'] + dec_string(l % 10)
}

/// A level string is the level in tenths written as a decimal number: the level divided by
/// ten, a point, then its last digit ("3.1" for 31, "1.0" for 10).
pub proof fn lemma_level_string(l: nat)
    requires
        l < 1000,
    ensures
        l < 100 ==> level_string_of(l) == seq![('0' as int + l / 10) as char, '.', ('0' as int + l % 10) as char],
        100 <= l ==> level_string_of(l) == seq![('0' as int + l / 100) as char, ('0' as int + (l / 10) % 10) as char, '.',
            ('0' as int + l % 10) as char],
{
    if l >= 100 {
        reveal_with_fuel(dec_string, 2);
        assert(level_string_of(l) =~= seq![('0' as int + l / 100) as char, ('0' as int + (l / 10) % 10) as char, '.',
            ('0' as int + l % 10) as char]);
    } else {
        assert(level_string_of(l) =~= seq![('0' as int + l / 10) as char, '.', ('0' as int + l % 10) as char]);
    }
}

pub struct FrameInfo {
    pub fixed: bool,
    pub fps: u64,
    pub fps_den: u64,
    pub fps_num: u64,
}

pub struct Size {
    pub width: i64,
    pub height: i64,
}

pub struct SPSInfo {
    pub profile_string: &'static str,
    pub level_string: String,
    pub bit_depth: u64,
    pub ref_frames: u32,
    pub chroma_format: u32,
    pub chroma_format_string: &'static str,
    pub frame_rate: FrameInfo,
    pub sar_ratio: Size,
    pub codec_size: Size,
    pub present_size: Size,
}

/// `info` is what the SPS with syntax `syn` describes.
pub open spec fn sps_info_of(info: SPSInfo, syn: SpsSyntax) -> bool {
    &&& info.profile_string@ == profile_string_of(syn.profile_idc)
    &&& info.level_string@ == level_string_of(syn.level_idc)
    &&& info.bit_depth == syn.bit_depth_minus8 + 8
    &&& info.ref_frames == syn.geometry.ref_frames
    &&& info.chroma_format == chroma_format_of(syn.chroma_format_idc)
    &&& info.chroma_format_string@ == chroma_format_string_of(chroma_format_of(syn.chroma_format_idc))
    &&& info.frame_rate.fixed == syn.vui.fps_fixed
    &&& info.frame_rate.fps == fps_of(syn.vui)
    &&& info.frame_rate.fps_den == syn.vui.fps_den
    &&& info.frame_rate.fps_num == syn.vui.fps_num
    &&& info.sar_ratio.width == syn.vui.sar_width
    &&& info.sar_ratio.height == syn.vui.sar_height
    &&& info.codec_size.width == codec_width_of(syn)
    &&& info.codec_size.height == codec_height_of(syn)
    &&& info.present_size.width == present_width_of(syn)
    &&& info.present_size.height == codec_height_of(syn)
}

/// The strings an SPS is described by: the profile and level name the second and fourth
/// bytes of its unescaped form, the chroma format string names the chroma format, and the
/// presented height is the coded one. A profile without the high-profile chroma fields has
/// 4:2:0 chroma at 8 bits, and a square sample aspect ratio keeps the coded width.
pub proof fn lemma_sps_strings(sps: Seq<u8>, info: SPSInfo)
    requires
        spec_sps_syntax(sps_reader_start(sps)) is Ok,
        sps_info_of(info, spec_sps_syntax(sps_reader_start(sps))->Ok_0.0),
    ensures
        rbsp_prefix(sps, sps.len() as int).len() >= 4,
        info.profile_string@ == profile_string_of(rbsp_prefix(sps, sps.len() as int)[1] as nat),
        info.level_string@ == level_string_of(rbsp_prefix(sps, sps.len() as int)[3] as nat),
        info.chroma_format_string@ == chroma_format_string_of(info.chroma_format as nat),
        info.present_size.height == info.codec_size.height,
        !is_high_profile(rbsp_prefix(sps, sps.len() as int)[1] as nat) ==> info.chroma_format == 420 && info.bit_depth == 8,
        info.sar_ratio.width == 1 && info.sar_ratio.height == 1 ==> info.present_size.width == info.codec_size.width,
{
    reveal(spec_read_bits);
    let rb = rbsp_prefix(sps, sps.len() as int);
    let s0 = sps_reader_start(sps);
    let syn = spec_sps_syntax(s0)->Ok_0.0;
    let (v1, s1) = spec_read_bits(s0, 8)->Ok_0;
    let (p, s2) = spec_read_bits(s1, 8)->Ok_0;
    let (v3, s3) = spec_read_bits(s2, 8)->Ok_0;
    let (l, s4) = spec_read_bits(s3, 8)->Ok_0;
    assert(rb.len() >= 4);
    lemma_aligned_byte(rb, 1);
    lemma_aligned_byte(rb, 3);
    assert(p == rb[1] as nat);
    assert(l == rb[3] as nat);
    assert(syn.profile_idc == p && syn.level_idc == l);
    if syn.vui.sar_width == 1 && syn.vui.sar_height == 1 {
        assert(ceil_div(codec_width_of(syn) * 1, 1) == codec_width_of(syn));
    }
}

/// The coded size of an SPS (H.264 7.4.2.1.1 and Table 6-1): whole macroblocks, twice as
/// many rows for field coding, less the cropping offsets, counted in units of two luma
/// samples where the chroma planes are subsampled in that direction (and, vertically,
/// doubled again for field coding).
pub proof fn lemma_sps_coded_size(info: SPSInfo, syn: SpsSyntax)
    requires
        sps_info_of(info, syn),
    ensures
        ({
            let g = syn.geometry;
            let fields: int = 2 - g.frame_mbs_only_flag;
            let w: int = (g.pic_width_in_mbs_minus1 as int + 1) * 16;
            let h: int = fields * ((g.pic_height_in_map_units_minus1 as int + 1) * 16);
            let cx: int = g.crop_left as int + g.crop_right as int;
            let cy: int = g.crop_top as int + g.crop_bottom as int;
            &&& syn.chroma_format_idc == 0 ==> info.codec_size.width == w - cx
                && info.codec_size.height == h - cy * fields
            &&& syn.chroma_format_idc == 1 ==> info.codec_size.width == w - cx * 2
                && info.codec_size.height == h - cy * 2 * fields
            &&& syn.chroma_format_idc == 2 ==> info.codec_size.width == w - cx * 2
                && info.codec_size.height == h - cy * fields
            &&& syn.chroma_format_idc == 3 ==> info.codec_size.width == w - cx
                && info.codec_size.height == h - cy * fields
        }),
        info.present_size.height == info.codec_size.height,
{
    let g = syn.geometry;
    let fields: int = 2 - g.frame_mbs_only_flag;
    let cy: int = g.crop_top as int + g.crop_bottom as int;
    assert(cy * (2 * fields) == cy * 2 * fields) by (nonlinear_arith);
}

/// The presented width is the coded width stretched by the sample aspect ratio and rounded
/// up: the smallest width whose ratio to the coded width is at least that of the sample
/// aspect ratio.
pub proof fn lemma_sps_present_width(info: SPSInfo, syn: SpsSyntax)
    requires
        sps_info_of(info, syn),
        info.sar_ratio.height > 0,
    ensures
        info.present_size.width * info.sar_ratio.height >= info.codec_size.width * info.sar_ratio.width,
        (info.present_size.width - 1) * info.sar_ratio.height < info.codec_size.width * info.sar_ratio.width,
{
    let a: int = codec_width_of(syn) * syn.vui.sar_width;
    let b: int = syn.vui.sar_height as int;
    let p: int = ceil_div(a, b);
    assert(p * b >= a && (p - 1) * b < a) by (nonlinear_arith)
        requires b > 0, p == -((-a) / b);
}

/// What an SPS says depends on its unescaped form only: emulation prevention bytes never
/// change it.
pub proof fn lemma_sps_reads_rbsp(a: Seq<u8>, b: Seq<u8>)
    requires
        rbsp_prefix(a, a.len() as int) == rbsp_prefix(b, b.len() as int),
    ensures
        spec_sps_syntax(sps_reader_start(a)) == spec_sps_syntax(sps_reader_start(b)),
{
    assert(sps_reader_start(a) == sps_reader_start(b));
}

/// Initial reader state over the RBSP of `sps`.
pub open spec fn sps_reader_start(sps: Seq<u8>) -> GolombState {
    GolombState { buf: rbsp_prefix(sps, sps.len() as int), idx: 0, left: 0 }
}

fn sps_header(gb: &mut ExpGolomb) -> (r: Result<(u32, u32), ExpGolombError>)
    requires
        golomb_wf(old(gb)@),
    ensures
        golomb_wf(final(gb)@),
        final(gb)@.buf == old(gb)@.buf,
        match spec_read_bits(old(gb)@, 8) {
            Err(e) => r == Err::<(u32, u32), ExpGolombError>(e),
            Ok((_a, s1)) => match spec_read_bits(s1, 8) {
                Err(e) => r == Err::<(u32, u32), ExpGolombError>(e),
                Ok((p, s2)) => match spec_read_bits(s2, 8) {
                    Err(e) => r == Err::<(u32, u32), ExpGolombError>(e),
                    Ok((_c, s3)) => match spec_read_bits(s3, 8) {
                        Err(e) => r == Err::<(u32, u32), ExpGolombError>(e),
                        Ok((l, s4)) => match spec_read_ueg(s4) {
                            Err(e) => r == Err::<(u32, u32), ExpGolombError>(e),
                            Ok((_i, s5)) => r == Ok::<(u32, u32), ExpGolombError>((p as u32, l as u32))
                                && final(gb)@ == s5 && p <= 255 && l <= 255,
                        },
                    },
                },
            },
        },
{
    gb.readByte()?;
    let ghost s1 = gb@;
    let profile_idc = gb.readByte()?;  // profile_idc
    gb.readByte()?;  // constraint_set_flags[5] + reserved_zero[3]
    let ghost s3 = gb@;
    let level_idc = gb.readByte()?;  // level_idc
    gb.readUEG()?;  // seq_parameter_set_id
    proof {
        crate::exp_golomb::lemma_byte_bound(s1);
        crate::exp_golomb::lemma_byte_bound(s3);
    }
    Ok((profile_idc, level_idc))
}

fn is_high(profile_idc: u32) -> (b: bool)
    ensures
        b == is_high_profile(profile_idc as nat),
{
    profile_idc == 100 || profile_idc == 110 || profile_idc == 122 || profile_idc == 244
        || profile_idc == 44 || profile_idc == 83 || profile_idc == 86 || profile_idc == 118
        || profile_idc == 128 || profile_idc == 138 || profile_idc == 144
}

fn ceil_div_i64(a: i64, b: i64) -> (r: i64)
    requires
        b > 0,
        -0x1000_0000_0000_0000 <= a <= 0x1000_0000_0000_0000,
        b <= 0x1_0000_0000,
    ensures
        r == ceil_div(a as int, b as int),
{
    if a >= 0 {
        let q = (a + b - 1) / b;
        proof {
            let ai = a as int;
            let bi = b as int;
            let qi = q as int;
            assert(qi == (ai + bi - 1) / bi);
            assert(qi * bi <= ai + bi - 1 < qi * bi + bi) by (nonlinear_arith)
                requires qi == (ai + bi - 1) / bi, bi > 0;
            let f = (-ai) / bi;
            assert(f * bi <= -ai < f * bi + bi) by (nonlinear_arith)
                requires f == (-ai) / bi, bi > 0;
            assert(qi == -f) by (nonlinear_arith)
                requires
                    qi * bi <= ai + bi - 1 < qi * bi + bi,
                    f * bi <= -ai < f * bi + bi,
                    bi > 0;
        }
        q
    } else {
        let m = -a;
        let q = m / b;
        -q
    }
}

/// Parses an SPS NAL unit (without start code).
pub fn parseSPS(uint8array: &[u8]) -> (r: Result<SPSInfo, ExpGolombError>)
    requires
        8 * uint8array@.len() <= usize::MAX,
    ensures
        match spec_sps_syntax(sps_reader_start(uint8array@)) {
            Ok((syn, _s)) => r is Ok && sps_info_of(r.unwrap(), syn),
            Err(e) => r is Err && r->Err_0 == e,
        },
{
    let rbsp = _ebsp2rbsp(uint8array);
    let mut gb = ExpGolomb::new(rbsp);
    let ghost s0 = gb@;
    let (profile_idc, level_idc) = sps_header(&mut gb)?;
    let ghost s5 = gb@;
    let mut chroma_format_idc: u32 = 1;
    let mut bit_depth_minus8: u32 = 0;
    if is_high(profile_idc) {
        let (c, b) = chroma_part(&mut gb)?;
        chroma_format_idc = c;
        bit_depth_minus8 = b;
    }
    let ghost s6 = gb@;
    poc_part(&mut gb)?;
    let ghost s7 = gb@;
    let g = geometry_part(&mut gb)?;
    let ghost s8 = gb@;
    let v = vui_part(&mut gb)?;
    let ghost syn = SpsSyntax {
        profile_idc: profile_idc as nat,
        level_idc: level_idc as nat,
        chroma_format_idc: chroma_format_idc as nat,
        bit_depth_minus8: bit_depth_minus8 as nat,
        geometry: spec_geometry_part(s7).unwrap().0,
        vui: spec_vui_part(s8).unwrap().0,
    };
    assert(spec_sps_syntax(s0) == Ok::<(SpsSyntax, GolombState), ExpGolombError>((syn, gb@)));

    let chroma_format: u32 = if chroma_format_idc == 0 {
        0
    } else if chroma_format_idc == 1 {
        420
    } else if chroma_format_idc == 2 {
        422
    } else if chroma_format_idc == 3 {
        444
    } else {
        420
    };

    let fps: u64 = if v.fps_den == 0 { 0 } else { v.fps_num as u64 / v.fps_den };

    let crop_unit_x: i64;
    let crop_unit_y: i64;
    if chroma_format_idc == 0 {
        crop_unit_x = 1;
        crop_unit_y = 2 - g.frame_mbs_only_flag as i64;
    } else {
        let sub_wc: i64 = if chroma_format_idc == 3 { 1 } else { 2 };
        let sub_hc: i64 = if chroma_format_idc == 1 { 2 } else { 1 };
        crop_unit_x = sub_wc;
        crop_unit_y = sub_hc * (2 - g.frame_mbs_only_flag as i64);
    }

    let hh: i64 = (g.pic_height_in_map_units_minus1 as i64 + 1) * 16;
    let fm: i64 = 2 - g.frame_mbs_only_flag as i64;
    let cs: i64 = g.frame_crop_top_offset as i64 + g.frame_crop_bottom_offset as i64;
    proof {
        assert(1 <= fm <= 2);
        assert(0 <= hh <= 0x1_0000_0000 * 16);
        assert(fm * hh <= 2 * 0x1_0000_0000 * 16) by (nonlinear_arith)
            requires 1 <= fm <= 2, 0 <= hh <= 0x1_0000_0000 * 16;
        assert(0 <= crop_unit_y <= 4);
        assert(0 <= cs <= 0x2_0000_0000);
        assert(cs * crop_unit_y <= 4 * 0x2_0000_0000) by (nonlinear_arith)
            requires 0 <= cs <= 0x2_0000_0000, 0 <= crop_unit_y <= 4;
        assert(cs * crop_unit_y >= 0) by (nonlinear_arith)
            requires 0 <= cs, 0 <= crop_unit_y;
        assert(fm * hh >= 0) by (nonlinear_arith)
            requires 1 <= fm, 0 <= hh;
    }
    let mut codec_width: i64 = (g.pic_width_in_mbs_minus1 as i64 + 1) * 16;
    let mut codec_height: i64 = fm * hh;
    codec_width = codec_width - (g.frame_crop_left_offset as i64 + g.frame_crop_right_offset as i64)
        * crop_unit_x;
    codec_height = codec_height - cs * crop_unit_y;

    let present_width: i64 = if v.sar_height == 0 {
        codec_width
    } else {
        proof {
            assert(-(0x2_0000_0000i64) * 16 <= codec_width <= 0x2_0000_0000i64 * 16);
            assert(codec_width * (v.sar_width as int) <= 0x2_0000_0000 * 16 * 0x10000) by (nonlinear_arith)
                requires codec_width <= 0x2_0000_0000i64 * 16, 0 <= v.sar_width <= 0xFFFFu32;
            assert(codec_width * (v.sar_width as int) >= -0x2_0000_0000 * 16 * 0x10000) by (nonlinear_arith)
                requires codec_width >= -(0x2_0000_0000i64) * 16, 0 <= v.sar_width <= 0xFFFFu32;
        }
        ceil_div_i64(codec_width * v.sar_width as i64, v.sar_height as i64)
    };

    let level_string = getLevelString(level_idc);
    Ok(SPSInfo {
        profile_string: getProfileString(profile_idc),
        level_string,
        bit_depth: bit_depth_minus8 as u64 + 8,
        ref_frames: g.ref_frames,
        chroma_format,
        chroma_format_string: getChromaFormatString(chroma_format),
        frame_rate: FrameInfo { fixed: v.fps_fixed, fps, fps_den: v.fps_den, fps_num: v.fps_num as u64 },
        sar_ratio: Size { width: v.sar_width as i64, height: v.sar_height as i64 },
        codec_size: Size { width: codec_width, height: codec_height },
        present_size: Size { width: present_width, height: codec_height },
    })
}

/// Name of an H.264 profile.
pub fn getProfileString(profile_idc: u32) -> (r: &'static str)
    ensures
        r@ == profile_string_of(profile_idc as nat),
{
    match profile_idc {
        66 => "Baseline",
        77 => "Main",
        88 => "Extended",
        100 => "High",
        110 => "High10",
        122 => "High422",
        244 => "High444",
        _ => "Unknown",
    }
}

pub(crate) fn digit_str(d: u32) -> (r: &'static str)
    requires
        d < 10,
    ensures
        r@ == seq![digit_char(d as nat)],
{
    proof {
        reveal_strlit("0");
        reveal_strlit("1");
        reveal_strlit("2");
        reveal_strlit("3");
        reveal_strlit("4");
        reveal_strlit("5");
        reveal_strlit("6");
        reveal_strlit("7");
        reveal_strlit("8");
        reveal_strlit("9");
    }
    let r = match d {
        0 => "0",
        1 => "1",
        2 => "2",
        3 => "3",
        4 => "4",
        5 => "5",
        6 => "6",
        7 => "7",
        8 => "8",
        _ => "9",
    };
    assert(r@ =~= seq![digit_char(d as nat)]);
    r
}

pub(crate) fn push_decimal(out: &mut String, n: u32)
    ensures
        final(out)@ == old(out)@ + dec_string(n as nat),
    decreases n,
{
    if n >= 10 {
        push_decimal(out, n / 10);
        out.append(digit_str(n % 10));
        assert(out@ =~= old(out)@ + dec_string(n as nat));
    } else {
        out.append(digit_str(n));
        assert(out@ =~= old(out)@ + dec_string(n as nat));
    }
}

/// `level_idc / 10` with one decimal.
pub fn getLevelString(level_idc: u32) -> (r: String)
    ensures
        r@ == level_string_of(level_idc as nat),
{
    let mut s = String::new();
    push_decimal(&mut s, level_idc / 10);
    let dot = ".";
    proof {
        reveal_strlit(".");
    }
    s.append(dot);
    push_decimal(&mut s, level_idc % 10);
    assert(s@ =~= level_string_of(level_idc as nat));
    s
}

/// Name of a chroma format.
pub fn getChromaFormatString(chroma: u32) -> (r: &'static str)
    ensures
        r@ == chroma_format_string_of(chroma as nat),
{
    match chroma {
        420 => "4:2:0",
        422 => "4:2:2",
        444 => "4:4:4",
        _ => "Unknown",
    }
}

} // verus!
