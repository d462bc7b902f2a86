//! Walking the tags of a chunk of FLV data.
use vstd::prelude::*;
use crate::amf_parser::{AMFProperty, amf_script};
use crate::bytes::{be24_at, read_be_u24};
use crate::flv_demuxer::{
    BpsInfo, DemuxEvent, FLVDemuxer, FLVProbeData, initial_metadata_dispatched, probe, spec_probe,
};
use crate::flv_tags::{
    ON_METADATA, ScriptNumbers, audio_tag_taken, handed_over, script_numbers_applied, script_tag_taken,
    video_tag_taken,
};
use crate::mp4_remuxer::MP4Remuxer;

verus! {

/// A complete tag of a chunk: its type, where its header starts, its body size and its
/// timestamp.
pub struct TagRef {
    pub tagType: u8,
    pub offset: int,
    pub dataSize: int,
    pub timestamp: u32,
}

/// The timestamp of the tag whose header starts at `o`: 24 bits, then 8 more on top.
pub open spec fn tag_timestamp(c: Seq<u8>, o: int) -> u32 {
    (c[o + 7] as int * 0x1000000 + c[o + 4] as int * 0x10000 + c[o + 5] as int * 0x100 + c[o + 6] as int) as u32
}

/// The timestamp of a tag is the big-endian 24-bit field at bytes 4 to 6 of its header,
/// with byte 7 as its upper eight bits.
pub proof fn lemma_tag_timestamp(c: Seq<u8>, o: int)
    requires
        0 <= o,
        o + 8 <= c.len(),
    ensures
        tag_timestamp(c, o) as int == be24_at(c, o + 4) + c[o + 7] as int * 0x1000000,
        tag_timestamp(c, o) as int == c[o + 4] as int * 0x10000 + c[o + 5] as int * 0x100 + c[o + 6] as int
            + c[o + 7] as int * 0x1000000,
{
    let v = c[o + 7] as int * 0x1000000 + c[o + 4] as int * 0x10000 + c[o + 5] as int * 0x100 + c[o + 6] as int;
    assert(0 <= v < 0x1_0000_0000);
}

/// The script data at `[off, off + size)` is `onMetaData`.
#[verifier::opaque]
pub open spec fn is_onmetadata(c: Seq<u8>, off: int, size: int) -> bool {
    amf_script(c, off, size) matches Some(Some((name, _p))) && name == ON_METADATA()
}

/// Where the numbers of an `onMetaData` tag come from. They are doubles in the tag; the
/// caller turns them into integers, since this library holds no floating point.
pub trait ScriptNumberSource {
    /// The numbers of the metadata `metadata`, durations counted in `timescale` units.
    fn script_numbers(&self, metadata: &Vec<AMFProperty>, timescale: u32) -> ScriptNumbers;
}

/// The complete tags of `c` from `offset` on, and where the walk ends. A tag is 11 header
/// bytes, its body, and the 4-byte size of the tag before the next one.
pub open spec fn spec_tag_walk(c: Seq<u8>, offset: int) -> (Seq<TagRef>, int)
    decreases c.len() - offset,
{
    if offset < 0 || offset + 15 > c.len() {
        (Seq::empty(), offset)
    } else {
        let size = be24_at(c, offset + 1);
        if offset + 15 + size > c.len() {
            (Seq::empty(), offset)
        } else {
            let t = TagRef { tagType: c[offset], offset, dataSize: size, timestamp: tag_timestamp(c, offset) };
            let w = spec_tag_walk(c, offset + 15 + size);
            (seq![t] + w.0, w.1)
        }
    }
}

/// `t` is the tag whose header starts at `t.offset` in `c`: complete, with its type byte,
/// its big-endian 24-bit body size, and its timestamp (bytes 4 to 6 big-endian, byte 7 on
/// top).
pub open spec fn tag_read_at(c: Seq<u8>, t: TagRef) -> bool {
    &&& t.offset + 15 + t.dataSize <= c.len()
    &&& t.tagType == c[t.offset]
    &&& t.dataSize == c[t.offset + 1] as int * 0x10000 + c[t.offset + 2] as int * 0x100 + c[t.offset + 3] as int
    &&& t.timestamp as int == c[t.offset + 4] as int * 0x10000 + c[t.offset + 5] as int * 0x100
        + c[t.offset + 6] as int + c[t.offset + 7] as int * 0x1000000
}

/// The tags of a chunk lie back to back from where the walk starts: each takes 11 header
/// bytes, its body and a 4-byte size field; where the walk ends, no complete tag follows
/// within the chunk.
#[verifier::spinoff_prover]
#[verifier::rlimit(60)]
pub proof fn lemma_tag_walk_layout(c: Seq<u8>, offset: int)
    requires
        0 <= offset,
    ensures
        ({
            let (tags, end) = spec_tag_walk(c, offset);
            &&& forall|j: int| 0 <= j < tags.len() ==> tag_read_at(c, #[trigger] tags[j])
            &&& forall|j: int| 0 <= j < tags.len() ==> (#[trigger] tags[j]).offset
                == if j == 0 { offset } else { tags[j - 1].offset + 15 + tags[j - 1].dataSize }
            &&& end == if tags.len() == 0 { offset } else { tags.last().offset + 15 + tags.last().dataSize }
            &&& end + 15 > c.len() || end + 15 + (c[end + 1] as int * 0x10000 + c[end + 2] as int * 0x100
                + c[end + 3] as int) > c.len()
        }),
    decreases c.len() - offset,
{
    if offset + 15 <= c.len() {
        let size = be24_at(c, offset + 1);
        if offset + 15 + size <= c.len() {
            let next = offset + 15 + size;
            lemma_tag_walk_layout(c, next);
            lemma_tag_timestamp(c, offset);
            let (rest, e) = spec_tag_walk(c, next);
            let (tags, end) = spec_tag_walk(c, offset);
            assert(tags == seq![tags[0]] + rest);
            assert(tag_read_at(c, tags[0]));
            assert forall|j: int| 0 <= j < tags.len() implies tag_read_at(c, #[trigger] tags[j]) by {
                if j > 0 {
                    assert(tags[j] == rest[j - 1]);
                }
            }
            assert forall|j: int| 0 <= j < tags.len() implies (#[trigger] tags[j]).offset
                == if j == 0 { offset } else { tags[j - 1].offset + 15 + tags[j - 1].dataSize } by {
                if j > 0 {
                    assert(tags[j] == rest[j - 1]);
                    if j > 1 {
                        assert(tags[j - 1] == rest[j - 2]);
                    }
                }
            }
            if rest.len() > 0 {
                assert(tags.last() == rest.last());
            }
        }
    }
}

/// Demuxer, remuxer and events at one point of a chunk.
pub struct DemuxState {
    pub d: FLVDemuxer,
    pub r: MP4Remuxer,
    pub e: Seq<DemuxEvent>,
}

/// What a script tag body at `[off, off + size)` does: `onMetaData` is taken, then its
/// numbers, whatever they are, are applied.
pub open spec fn script_tag_done(d0: FLVDemuxer, d1: FLVDemuxer, e0: Seq<DemuxEvent>, e1: Seq<DemuxEvent>, c: Seq<u8>, off: int, size: int) -> bool {
    if is_onmetadata(c, off, size) {
        exists|dm: FLVDemuxer, em: Seq<DemuxEvent>, n: ScriptNumbers| {
            &&& #[trigger] script_tag_taken(d0, dm, e0, em, c, off, size, true)
            &&& #[trigger] script_numbers_applied(dm, d1, em, e1, n)
        }
    } else {
        script_tag_taken(d0, d1, e0, e1, c, off, size, false)
    }
}

/// What one tag does, the demuxer being marked as having data to dispatch first.
#[verifier::opaque]
pub open spec fn tag_step(s0: DemuxState, s1: DemuxState, c: Seq<u8>, t: TagRef, byteStart: int) -> bool {
    let d0 = FLVDemuxer { _dispatch: true, ..s0.d };
    let off = t.offset + 11;
    if t.tagType == 8 {
        audio_tag_taken(d0, s1.d, s0.r, s1.r, s0.e, s1.e, c, off, t.dataSize, t.timestamp)
    } else if t.tagType == 9 {
        video_tag_taken(d0, s1.d, s0.r, s1.r, s0.e, s1.e, c, off, t.dataSize, t.timestamp, (byteStart + t.offset) as u64)
    } else if t.tagType == 18 {
        s1.r == s0.r && script_tag_done(d0, s1.d, s0.e, s1.e, c, off, t.dataSize)
    } else {
        s1.d == d0 && s1.r == s0.r && s1.e == s0.e
    }
}

/// Body bytes of the tags of type `ty`.
pub open spec fn tag_bytes(tags: Seq<TagRef>, ty: u8) -> int
    decreases tags.len(),
{
    if tags.len() == 0 {
        0
    } else {
        tag_bytes(tags.drop_last(), ty) + if tags.last().tagType == ty { tags.last().dataSize } else { 0 }
    }
}

/// `x + y`, or `usize::MAX` past it.
pub open spec fn sat_add(x: int, y: int) -> usize {
    if x + y > usize::MAX {
        usize::MAX
    } else {
        (x + y) as usize
    }
}

/// The byte counts with `a` more audio and `v` more video bytes.
pub open spec fn bps_bytes(b: BpsInfo, a: int, v: int) -> BpsInfo {
    BpsInfo { lastAudioBytes: sat_add(b.lastAudioBytes as int, a), lastVideoBytes: sat_add(b.lastVideoBytes as int, v), ..b }
}

/// The byte counts after a chunk with `a` audio and `v` video bytes that came at `now`
/// (milliseconds): the time gap since the previous chunk, in seconds rounded, at least 1.
pub open spec fn bps_after(b: BpsInfo, a: int, v: int, now: u64) -> BpsInfo {
    let factor = if b.data_updated_time != 0 {
        let elapsed = if now >= b.data_updated_time { now - b.data_updated_time } else { 0 };
        if elapsed < 1000 { 1 } else { ((elapsed + 500) / 1000) as u64 }
    } else {
        b.time_gap_factor
    };
    BpsInfo { data_updated_time: now, time_gap_factor: factor, ..bps_bytes(b, a, v) }
}

/// Where the tags of a chunk start: after the FLV header of the first chunk, then after
/// the size of the (absent) tag before the first one.
pub open spec fn tags_start(d: FLVDemuxer, c: Seq<u8>, byteStart: int) -> int {
    let start = if byteStart == 0 { spec_probe(c)->Some_0.0 } else { 0 };
    if d._firstParse { start + 4 } else { start }
}

/// The chunk can be parsed: a first chunk holds a valid FLV header, and the first parse
/// finds the size of the tag before the first one.
pub open spec fn chunk_ok(d: FLVDemuxer, c: Seq<u8>, byteStart: int) -> bool {
    byteStart == 0 && c.len() <= 13 || {
        &&& byteStart == 0 ==> spec_probe(c) is Some
        &&& d._firstParse ==> tags_start(d, c, byteStart) <= c.len()
    }
}

/// After the tags: samples are handed over once every track had its initial metadata, when
/// there is something to dispatch.
pub open spec fn chunk_finished(s: DemuxState, d1: FLVDemuxer, r1: MP4Remuxer, e1: Seq<DemuxEvent>, dispatch: bool, b: BpsInfo) -> bool {
    let dq = FLVDemuxer { _dispatch: dispatch, _bpsInfo: b, ..s.d };
    if initial_metadata_dispatched(dq) && dq._dispatch && (dq._audioTrack.length > 0 || dq._videoTrack.length > 0) {
        handed_over(dq, d1, s.r, r1, s.e, e1)
    } else {
        d1 == dq && r1 == s.r && e1 == s.e
    }
}

/// What parsing a chunk that starts at stream position `byteStart` and came at `now` does;
/// `r` is how many of its bytes were consumed: all its complete tags. The numbers of an
/// `onMetaData` tag are applied, whatever they are, before the next tag is taken.
pub open spec fn chunk_parsed(
    d0: FLVDemuxer,
    d1: FLVDemuxer,
    r0: MP4Remuxer,
    r1: MP4Remuxer,
    e0: Seq<DemuxEvent>,
    e1: Seq<DemuxEvent>,
    c: Seq<u8>,
    byteStart: int,
    now: u64,
    r: int,
) -> bool {
    if byteStart == 0 && c.len() <= 13 {
        r == 0 && d1 == d0 && r1 == r0 && e1 == e0
    } else {
        let w = spec_tag_walk(c, tags_start(d0, c, byteStart));
        let tags = w.0;
        &&& r == w.1
        &&& exists|states: Seq<DemuxState>| {
            &&& #[trigger] tags_run(states, tags, c, byteStart)
            &&& states[0] == (DemuxState { d: FLVDemuxer { _firstParse: false, ..d0 }, r: r0, e: e0 })
            &&& chunk_finished(
                states.last(),
                d1,
                r1,
                e1,
                if w.1 < c.len() { true } else { states.last().d._dispatch },
                bps_after(states.last().d._bpsInfo, tag_bytes(tags, 8), tag_bytes(tags, 9), now),
            )
        }
    }
}

/// `states` are demuxer, remuxer and events before the first of `tags` and after each.
pub open spec fn tags_run(states: Seq<DemuxState>, tags: Seq<TagRef>, c: Seq<u8>, byteStart: int) -> bool {
    &&& states.len() == tags.len() + 1
    &&& forall|j: int| 0 <= j < tags.len() ==> tag_step(#[trigger] states[j], states[j + 1], c, tags[j], byteStart)
}

/// The byte counts with `a` more audio and `v` more video bytes.
fn add_bytes(b: &BpsInfo, a: usize, v: usize) -> (r: BpsInfo)
    ensures
        r == bps_bytes(*b, a as int, v as int),
{
    BpsInfo {
        lastAudioBytes: b.lastAudioBytes.saturating_add(a),
        lastVideoBytes: b.lastVideoBytes.saturating_add(v),
        bps_video: b.bps_video,
        bps_audio: b.bps_audio,
        data_updated_time: b.data_updated_time,
        time_gap_factor: b.time_gap_factor,
    }
}

/// The byte counts of a chunk that came at `now`, with the time gap since the one before.
fn stamp_bytes(b: &BpsInfo, a: usize, v: usize, now: u64) -> (r: BpsInfo)
    ensures
        r == bps_after(*b, a as int, v as int, now),
{
    let counted = add_bytes(b, a, v);
    let factor = if b.data_updated_time != 0 {
        let elapsed = if now >= b.data_updated_time { now - b.data_updated_time } else { 0 };
        if elapsed < 1000 { 1 } else { elapsed / 1000 + if elapsed % 1000 >= 500 { 1 } else { 0 } }
    } else {
        b.time_gap_factor
    };
    proof {
        let elapsed = if now >= b.data_updated_time { now - b.data_updated_time } else { 0 };
        if b.data_updated_time != 0 && elapsed >= 1000 {
            assert(elapsed / 1000 + if elapsed % 1000 >= 500 { 1int } else { 0int } == (elapsed + 500) / 1000)
                by (nonlinear_arith);
        }
    }
    BpsInfo { data_updated_time: now, time_gap_factor: factor, ..counted }
}

proof fn lemma_tag_bytes_push(tags: Seq<TagRef>, t: TagRef, ty: u8)
    ensures
        tag_bytes(tags.push(t), ty) == tag_bytes(tags, ty) + if t.tagType == ty { t.dataSize } else { 0 },
{
    assert(tags.push(t).drop_last() =~= tags);
}

/// The timestamp of the tag whose header starts at `o`.
fn read_timestamp(chunk: &[u8], o: usize) -> (r: u32)
    requires
        o + 8 <= chunk@.len() <= usize::MAX,
    ensures
        r == tag_timestamp(chunk@, o as int),
{
    (chunk[o + 7] as u32) * 0x100_0000 + (chunk[o + 4] as u32) * 0x1_0000 + (chunk[o + 5] as u32) * 0x100 + chunk[o + 6] as u32
}

impl FLVDemuxer {
    /// Takes the tag whose header starts at `offset` and whose body is `size` bytes; the
    /// numbers of an `onMetaData` script tag come from `numbers`.
    fn parse_tag<S: ScriptNumberSource>(
        &mut self,
        chunk: &[u8],
        offset: usize,
        size: usize,
        byteStart: usize,
        numbers: &S,
        remuxer: &mut MP4Remuxer,
        events: &mut Vec<DemuxEvent>,
    )
        requires
            old(self).wf(),
            old(remuxer).wf(),
            offset + 15 + size <= chunk@.len(),
            byteStart + chunk@.len() <= usize::MAX,
            8 * chunk@.len() <= usize::MAX,
        ensures
            final(self).wf(),
            final(remuxer).wf(),
            tag_step(
                DemuxState { d: *old(self), r: *old(remuxer), e: old(events)@ },
                DemuxState { d: *final(self), r: *final(remuxer), e: final(events)@ },
                chunk@,
                TagRef { tagType: chunk@[offset as int], offset: offset as int, dataSize: size as int, timestamp: tag_timestamp(chunk@, offset as int) },
                byteStart as int,
            ),
    {
        reveal(tag_step);
        let tagType = chunk[offset];
        let ts = read_timestamp(chunk, offset);
        self._dispatch = true;
        let dataOffset = offset + 11;
        if tagType == 8 {
            self._parseAudioData(chunk, dataOffset, size, ts, remuxer, events);
        } else if tagType == 9 {
            self._parseVideoData(chunk, dataOffset, size, ts, (byteStart + offset) as u64, remuxer, events);
        } else if tagType == 18 {
            self.take_script_tag(chunk, dataOffset, size, numbers, events);
        }
    }

    /// Takes a script tag body; the numbers of `onMetaData` come from `numbers`.
    fn take_script_tag<S: ScriptNumberSource>(
        &mut self,
        chunk: &[u8],
        dataOffset: usize,
        size: usize,
        numbers: &S,
        events: &mut Vec<DemuxEvent>,
    )
        requires
            old(self).wf(),
            dataOffset + size <= chunk@.len(),
        ensures
            final(self).wf(),
            script_tag_done(*old(self), *final(self), old(events)@, final(events)@, chunk@, dataOffset as int, size as int),
    {
        reveal(is_onmetadata);
        if self._parseScriptData(chunk, dataOffset, size, events) {
            let ghost dm = *self;
            let ghost em = events@;
            let n = match &self._mediaInfo.metadata {
                Some(props) => numbers.script_numbers(props, self._timescale),
                None => {
                    // unreachable: `onMetaData` became the metadata
                    return;
                },
            };
            let ghost ng = n;
            self.applyScriptNumbers(n, events);
            assert(script_numbers_applied(dm, *self, em, events@, ng));
        }
    }
}

impl FLVDemuxer {
    /// After the tags of a chunk: marks whether data waits to be dispatched, counts the
    /// bytes, and hands the samples over once every track had its initial metadata.
    fn finish_chunk(
        &mut self,
        more: bool,
        audioBytes: usize,
        videoBytes: usize,
        now: u64,
        remuxer: &mut MP4Remuxer,
        events: &mut Vec<DemuxEvent>,
    )
        requires
            old(self).wf(),
            old(remuxer).wf(),
        ensures
            final(self).wf(),
            final(remuxer).wf(),
            chunk_finished(
                DemuxState { d: *old(self), r: *old(remuxer), e: old(events)@ },
                *final(self),
                *final(remuxer),
                final(events)@,
                if more { true } else { old(self)._dispatch },
                bps_after(old(self)._bpsInfo, audioBytes as int, videoBytes as int, now),
            ),
    {
        if more {
            self._dispatch = true;
        }
        self._bpsInfo = stamp_bytes(&self._bpsInfo, audioBytes, videoBytes, now);
        if self._isInitialMetadataDispatched() && self._dispatch && (self._audioTrack.length > 0
            || self._videoTrack.length > 0) {
            self.hand_over(remuxer, events);
        }
    }

    /// Parses the tags of a chunk that starts at stream position `byteStart` and came at
    /// `now` (milliseconds), and hands the samples over to `remuxer` once every track had its
    /// initial metadata. The numbers of an `onMetaData` tag come from `numbers`. Returns how
    /// many bytes were consumed: the caller keeps the rest and hands it in again with the
    /// next chunk.
    #[verifier::rlimit(80)]
    #[verifier::spinoff_prover]
    pub fn parseChunks<S: ScriptNumberSource>(
        &mut self,
        chunk: &[u8],
        byteStart: usize,
        now: u64,
        numbers: &S,
        remuxer: &mut MP4Remuxer,
        events: &mut Vec<DemuxEvent>,
    ) -> (consumed: usize)
        requires
            old(self).wf(),
            old(remuxer).wf(),
            byteStart + chunk@.len() <= usize::MAX,
            8 * chunk@.len() <= usize::MAX,
            chunk_ok(*old(self), chunk@, byteStart as int),
        ensures
            final(self).wf(),
            final(remuxer).wf(),
            chunk_parsed(*old(self), *final(self), *old(remuxer), *final(remuxer), old(events)@, final(events)@,
                chunk@, byteStart as int, now, consumed as int),
    {
        let len = chunk.len();
        if byteStart == 0 && len <= 13 {
            return 0;
        }
        let mut offset: usize = 0;
        if byteStart == 0 {
            match probe(chunk) {
                Some(p) => {
                    offset = p.dataOffset;
                },
                None => {
                    return 0;
                },
            }
        }
        if self._firstParse {
            self._firstParse = false;
            offset = offset + 4;
        }
        let ghost o0 = offset as int;
        let ghost s_init = DemuxState { d: *self, r: *remuxer, e: events@ };
        let ghost mut states: Seq<DemuxState> = seq![s_init];
        let ghost mut tags: Seq<TagRef> = Seq::empty();
        let mut audioBytes: usize = 0;
        let mut videoBytes: usize = 0;
        assert(tags + spec_tag_walk(chunk@, o0).0 =~= spec_tag_walk(chunk@, o0).0);
        loop
            invariant_except_break
                spec_tag_walk(chunk@, o0) == (tags + spec_tag_walk(chunk@, offset as int).0,
                    spec_tag_walk(chunk@, offset as int).1),
            invariant
                self.wf(),
                remuxer.wf(),
                len == chunk@.len(),
                8 * len <= usize::MAX,
                byteStart + len <= usize::MAX,
                0 <= o0 <= offset,
                tags_run(states, tags, chunk@, byteStart as int),
                states[0] == s_init,
                states.last() == (DemuxState { d: *self, r: *remuxer, e: events@ }),
                audioBytes == tag_bytes(tags, 8),
                videoBytes == tag_bytes(tags, 9),
                audioBytes + videoBytes <= offset - o0,
            ensures
                spec_tag_walk(chunk@, o0) == (tags, offset as int),
            decreases len - offset,
        {
            if offset >= len || len - offset < 15 {
                assert(tags + Seq::<TagRef>::empty() =~= tags);
                break;
            }
            let size = read_be_u24(&chunk[offset + 1..offset + 4]) as usize;
            assert(chunk@.subrange(offset + 1, offset + 4 as int)[0] == chunk@[offset + 1]);
            if len - offset - 15 < size {
                assert(size == be24_at(chunk@, offset + 1));
                assert(tags + Seq::<TagRef>::empty() =~= tags);
                break;
            }
            let ghost t = TagRef { tagType: chunk@[offset as int], offset: offset as int, dataSize: size as int, timestamp: tag_timestamp(chunk@, offset as int) };
            let ghost next = offset + 15 + size;
            let ghost rest = spec_tag_walk(chunk@, next);
            assert(size == be24_at(chunk@, offset + 1));
            self.parse_tag(chunk, offset, size, byteStart, numbers, remuxer, events);
            if chunk[offset] == 8 {
                audioBytes = audioBytes + size;
            } else if chunk[offset] == 9 {
                videoBytes = videoBytes + size;
            }
            proof {
                let s1 = DemuxState { d: *self, r: *remuxer, e: events@ };
                let old_states = states;
                states = states.push(s1);
                lemma_tag_bytes_push(tags, t, 8);
                lemma_tag_bytes_push(tags, t, 9);
                tags = tags.push(t);
                assert forall|j: int| 0 <= j < tags.len() implies tag_step(#[trigger] states[j], states[j + 1], chunk@, tags[j], byteStart as int) by {
                    if j < tags.len() - 1 {
                        assert(states[j] == old_states[j]);
                        assert(states[j + 1] == old_states[j + 1]);
                    }
                }
            }
            offset = offset + 15 + size;
            proof {
                assert(tags + rest.0 =~= (tags.drop_last() + (seq![t] + rest.0)));
            }
        }
        assert(o0 == tags_start(*old(self), chunk@, byteStart as int));
        assert(s_init == (DemuxState { d: FLVDemuxer { _firstParse: false, ..*old(self) }, r: *old(remuxer), e: old(events)@ }));
        self.finish_chunk(offset < len, audioBytes, videoBytes, now, remuxer, events);
        assert(tags_run(states, tags, chunk@, byteStart as int));
        offset
    }
}

proof fn lemma_walk_end(c: Seq<u8>, o: int)
    requires
        0 <= o,
    ensures
        spec_tag_walk(c, o).1 >= o,
        o <= c.len() ==> spec_tag_walk(c, o).1 <= c.len(),
        spec_tag_walk(c, spec_tag_walk(c, o).1).0.len() == 0,
    decreases c.len() - o,
{
    if o + 15 <= c.len() {
        let size = be24_at(c, o + 1);
        if o + 15 + size <= c.len() {
            lemma_walk_end(c, o + 15 + size);
        }
    }
}

/// A parsed chunk leaves no complete tag behind: what is not consumed starts no complete
/// tag, and a chunk whose tags start within it is never consumed past its end.
pub proof fn lemma_chunk_leaves_no_tag(
    d0: FLVDemuxer,
    d1: FLVDemuxer,
    r0: MP4Remuxer,
    r1: MP4Remuxer,
    e0: Seq<DemuxEvent>,
    e1: Seq<DemuxEvent>,
    c: Seq<u8>,
    byteStart: int,
    now: u64,
    consumed: int,
)
    requires
        chunk_parsed(d0, d1, r0, r1, e0, e1, c, byteStart, now, consumed),
        !(byteStart == 0 && c.len() <= 13),
        0 <= tags_start(d0, c, byteStart) <= c.len(),
    ensures
        consumed <= c.len(),
        spec_tag_walk(c, consumed).0.len() == 0,
{
    lemma_walk_end(c, tags_start(d0, c, byteStart));
}

} // verus!
