//! Bookkeeping of the media segments emitted for one track.
use vstd::prelude::*;

verus! {

/// A media sample (audio or video) as recorded in segment information.
#[derive(Copy, Clone)]
pub struct SampleInfo {
    pub dts: i64,
    pub pts: i64,
    pub duration: i64,
    pub originalDts: i64,
    pub isSyncPoint: bool,
    pub fileposition: Option<u64>,
}

impl SampleInfo {
    pub fn new(dts: i64, pts: i64, duration: i64, originalDts: i64, isSyncPoint: bool) -> (r: SampleInfo)
        ensures
            r == (SampleInfo { dts, pts, duration, originalDts, isSyncPoint, fileposition: None }),
    {
        SampleInfo { dts, pts, duration, originalDts, isSyncPoint, fileposition: None }
    }
}

/// A media segment (in ISO BMFF, a moof box followed by an mdat box).
pub struct MediaSegmentInfo {
    pub beginDts: i64,
    pub endDts: i64,
    pub beginPts: i64,
    pub endPts: i64,
    pub originalBeginDts: i64,
    pub originalEndDts: i64,
    pub syncPoints: Vec<SampleInfo>,
    pub firstSample: Option<SampleInfo>,
    pub lastSample: Option<SampleInfo>,
}

impl MediaSegmentInfo {
    /// An empty segment record.
    pub fn new() -> (r: MediaSegmentInfo)
        ensures
            r.beginDts == 0 && r.endDts == 0 && r.beginPts == 0 && r.endPts == 0,
            r.originalBeginDts == 0 && r.originalEndDts == 0,
            r.sync_points().len() == 0,
            r.firstSample is None && r.lastSample is None,
    {
        MediaSegmentInfo {
            beginDts: 0,
            endDts: 0,
            beginPts: 0,
            endPts: 0,
            originalBeginDts: 0,
            originalEndDts: 0,
            syncPoints: Vec::new(),
            firstSample: None,
            lastSample: None,
        }
    }

    pub open spec fn sync_points(&self) -> Seq<SampleInfo> {
        self.syncPoints@
    }

    /// The random access points of the segment, in order.
    pub fn syncPoints(self) -> (r: Vec<SampleInfo>)
        ensures
            r@ == self.sync_points(),
    {
        self.syncPoints
    }

    /// Records a random access point; it is marked as one.
    pub fn appendSyncPoint(&mut self, sampleInfo: SampleInfo)
        ensures
            final(self).sync_points() == old(self).sync_points().push(
                SampleInfo { isSyncPoint: true, ..sampleInfo },
            ),
            final(self).beginDts == old(self).beginDts,
            final(self).endDts == old(self).endDts,
            final(self).beginPts == old(self).beginPts,
            final(self).endPts == old(self).endPts,
            final(self).originalBeginDts == old(self).originalBeginDts,
            final(self).originalEndDts == old(self).originalEndDts,
            final(self).firstSample == old(self).firstSample,
            final(self).lastSample == old(self).lastSample,
    {
        let mut sampleInfo = sampleInfo;
        // also called Random Access Point
        sampleInfo.isSyncPoint = true;
        self.syncPoints.push(sampleInfo);
    }

    /// Fields equal, sync points included.
    pub open spec fn same_as(&self, other: &MediaSegmentInfo) -> bool {
        &&& self.beginDts == other.beginDts
        &&& self.endDts == other.endDts
        &&& self.beginPts == other.beginPts
        &&& self.endPts == other.endPts
        &&& self.originalBeginDts == other.originalBeginDts
        &&& self.originalEndDts == other.originalEndDts
        &&& self.syncPoints@ == other.syncPoints@
        &&& self.firstSample == other.firstSample
        &&& self.lastSample == other.lastSample
    }

    /// A copy of the record.
    pub fn copy(&self) -> (r: MediaSegmentInfo)
        ensures
            r.same_as(self),
    {
        let mut points: Vec<SampleInfo> = Vec::new();
        let mut i: usize = 0;
        while i < self.syncPoints.len()
            invariant
                i <= self.syncPoints@.len(),
                points@ == self.syncPoints@.subrange(0, i as int),
            decreases self.syncPoints@.len() - i,
        {
            points.push(self.syncPoints[i]);
            i = i + 1;
            assert(points@ =~= self.syncPoints@.subrange(0, i as int));
        }
        assert(points@ =~= self.syncPoints@);
        MediaSegmentInfo {
            beginDts: self.beginDts,
            endDts: self.endDts,
            beginPts: self.beginPts,
            endPts: self.endPts,
            originalBeginDts: self.originalBeginDts,
            originalEndDts: self.originalEndDts,
            syncPoints: points,
            firstSample: self.firstSample,
            lastSample: self.lastSample,
        }
    }

    fn sync_point_count(&self) -> (r: usize)
        ensures
            r == self.sync_points().len(),
    {
        self.syncPoints.len()
    }

    fn last_sync_point(&self) -> (r: SampleInfo)
        requires
            self.sync_points().len() > 0,
        ensures
            r == self.sync_points().last(),
    {
        self.syncPoints[self.syncPoints.len() - 1]
    }
}

/// `x` lies after the last sample of `seg`; false when it has none.
pub open spec fn after_last_sample(seg: MediaSegmentInfo, x: i64) -> bool {
    match seg.lastSample {
        Some(s) => x > s.originalDts,
        None => false,
    }
}

/// The binary search of `_searchNearestSegmentBefore` over `[lb, ub]`.
pub open spec fn search_loop(list: Seq<MediaSegmentInfo>, x: i64, lb: int, ub: int) -> int
    decreases ub - lb + 1,
{
    if lb > ub || lb < 0 || ub >= list.len() {
        0
    } else {
        let mid = lb + (ub - lb) / 2;
        if mid == list.len() - 1 || (after_last_sample(list[mid], x) && x < list[mid
            + 1].originalBeginDts) {
            mid
        } else if list[mid].originalBeginDts < x {
            search_loop(list, x, mid + 1, ub)
        } else {
            search_loop(list, x, lb, mid - 1)
        }
    }
}

/// `-2` for an empty list, `-1` before the first segment, else the search's index.
pub open spec fn search_before(list: Seq<MediaSegmentInfo>, x: i64) -> int {
    if list.len() == 0 {
        -2
    } else if x < list[0].originalBeginDts {
        -1
    } else {
        search_loop(list, x, 0, list.len() - 1)
    }
}

proof fn lemma_search_loop_range(list: Seq<MediaSegmentInfo>, x: i64, lb: int, ub: int)
    requires
        list.len() > 0,
    ensures
        0 <= search_loop(list, x, lb, ub) < list.len(),
    decreases ub - lb + 1,
{
    if lb > ub || lb < 0 || ub >= list.len() {
    } else {
        let mid = lb + (ub - lb) / 2;
        if mid == list.len() - 1 || (after_last_sample(list[mid], x) && x < list[mid
            + 1].originalBeginDts) {
        } else if list[mid].originalBeginDts < x {
            lemma_search_loop_range(list, x, mid + 1, ub);
        } else {
            lemma_search_loop_range(list, x, lb, mid - 1);
        }
    }
}

/// The search gives `-2`, `-1` or the index of a segment of the list.
pub proof fn lemma_search_before_range(list: Seq<MediaSegmentInfo>, x: i64)
    ensures
        -2 <= search_before(list, x) < list.len(),
{
    if list.len() > 0 && x >= list[0].originalBeginDts {
        lemma_search_loop_range(list, x, 0, list.len() - 1);
    }
}

/// The last sync point at or before segment `i`, going back past segments that have none.
pub open spec fn last_sync_from(list: Seq<MediaSegmentInfo>, i: int) -> Option<SampleInfo>
    decreases i,
{
    if i < 0 || i >= list.len() {
        None
    } else if list[i].sync_points().len() > 0 {
        Some(list[i].sync_points().last())
    } else if i > 0 {
        last_sync_from(list, i - 1)
    } else {
        None
    }
}

/// The original dts of the last sample of a segment.
pub open spec fn last_dts(seg: MediaSegmentInfo) -> int {
    seg.lastSample->Some_0.originalDts as int
}

/// The segment has a last sample, not before its beginning.
pub open spec fn spans(seg: MediaSegmentInfo) -> bool {
    seg.lastSample is Some && seg.originalBeginDts <= last_dts(seg)
}

/// Every segment spans its samples and ends before the next one begins.
pub open spec fn segments_ordered(list: Seq<MediaSegmentInfo>) -> bool {
    &&& forall|i: int| 0 <= i < list.len() ==> spans(#[trigger] list[i])
    &&& forall|i: int| 0 <= i < list.len() - 1 ==> last_dts(#[trigger] list[i]) < list[i + 1].originalBeginDts
}

/// `seg` overlaps no segment of `list`.
pub open spec fn apart(list: Seq<MediaSegmentInfo>, seg: MediaSegmentInfo) -> bool {
    forall|i: int| 0 <= i < list.len() ==> last_dts(#[trigger] list[i]) < seg.originalBeginDts || last_dts(seg) < list[i].originalBeginDts
}

/// A segment beginning at `x` belongs right after segment `j` (`-1`: before all).
pub open spec fn fits(list: Seq<MediaSegmentInfo>, j: int, x: int) -> bool {
    &&& -1 <= j < list.len()
    &&& j >= 0 ==> last_dts(list[j]) < x
    &&& j + 1 < list.len() ==> x < list[j + 1].originalBeginDts
}

/// The last segment among the first `k` that begins at or before `x` (`-1`: none).
pub open spec fn slot_of(list: Seq<MediaSegmentInfo>, x: int, k: int) -> int
    decreases k,
{
    if k <= 0 {
        -1
    } else if list[k - 1].originalBeginDts <= x {
        k - 1
    } else {
        slot_of(list, x, k - 1)
    }
}

proof fn lemma_ordered_pair(list: Seq<MediaSegmentInfo>, i: int, k: int)
    requires
        segments_ordered(list),
        0 <= i < k < list.len(),
    ensures
        last_dts(list[i]) < list[k].originalBeginDts,
    decreases k - i,
{
    if i + 1 < k {
        lemma_ordered_pair(list, i + 1, k);
        assert(spans(list[i + 1]));
        assert(last_dts(list[i]) < list[i + 1].originalBeginDts);
    }
}

proof fn lemma_slot_of(list: Seq<MediaSegmentInfo>, x: int, k: int)
    requires
        0 <= k <= list.len(),
    ensures
        -1 <= slot_of(list, x, k) < k,
        slot_of(list, x, k) >= 0 ==> list[slot_of(list, x, k)].originalBeginDts <= x,
        forall|i: int| slot_of(list, x, k) < i < k ==> x < #[trigger] list[i].originalBeginDts,
    decreases k,
{
    if k > 0 && list[k - 1].originalBeginDts > x {
        lemma_slot_of(list, x, k - 1);
    }
}

proof fn lemma_fits_exists(list: Seq<MediaSegmentInfo>, seg: MediaSegmentInfo)
    requires
        segments_ordered(list),
        spans(seg),
        apart(list, seg),
    ensures
        fits(list, slot_of(list, seg.originalBeginDts as int, list.len() as int), seg.originalBeginDts as int),
{
    let x = seg.originalBeginDts as int;
    let j = slot_of(list, x, list.len() as int);
    lemma_slot_of(list, x, list.len() as int);
    if j >= 0 {
        assert(spans(list[j]));
    }
    if j + 1 < list.len() {
        assert(x < list[j + 1].originalBeginDts);
    }
}

proof fn lemma_fits_unique(list: Seq<MediaSegmentInfo>, x: int, j1: int, j2: int)
    requires
        segments_ordered(list),
        fits(list, j1, x),
        fits(list, j2, x),
    ensures
        j1 == j2,
{
    if j1 < j2 {
        assert(spans(list[j2]));
        if j1 + 1 < j2 {
            lemma_ordered_pair(list, j1 + 1, j2);
            assert(spans(list[j1 + 1]));
        }
    } else if j2 < j1 {
        assert(spans(list[j1]));
        if j2 + 1 < j1 {
            lemma_ordered_pair(list, j2 + 1, j1);
            assert(spans(list[j2 + 1]));
        }
    }
}

proof fn lemma_search_loop_fits(list: Seq<MediaSegmentInfo>, x: i64, j: int, lb: int, ub: int)
    requires
        segments_ordered(list),
        fits(list, j, x as int),
        0 <= lb <= j <= ub < list.len(),
    ensures
        search_loop(list, x, lb, ub) == j,
    decreases ub - lb + 1,
{
    let mid = lb + (ub - lb) / 2;
    assert(spans(list[mid]));
    if mid == list.len() - 1 {
    } else if after_last_sample(list[mid], x) && x < list[mid + 1].originalBeginDts {
        lemma_fits_unique(list, x as int, mid, j);
    } else if list[mid].originalBeginDts < x {
        if j < mid {
            if j + 1 < mid {
                lemma_ordered_pair(list, j + 1, mid);
                assert(spans(list[j + 1]));
            }
        }
        if j == mid {
            assert(after_last_sample(list[mid], x));
        }
        lemma_search_loop_fits(list, x, j, mid + 1, ub);
    } else {
        if j >= mid {
            assert(spans(list[j]));
            if mid < j {
                lemma_ordered_pair(list, mid, j);
            }
        }
        lemma_search_loop_fits(list, x, j, lb, mid - 1);
    }
}

/// In an ordered list, the search for a dts that lies between segments finds the segment
/// that ends before it, or `-1` when it comes before them all.
pub proof fn lemma_search_finds_slot(list: Seq<MediaSegmentInfo>, x: i64, j: int)
    requires
        segments_ordered(list),
        list.len() > 0,
        fits(list, j, x as int),
    ensures
        search_before(list, x) == j,
{
    if j >= 0 {
        assert(spans(list[j]));
        if 0 < j {
            lemma_ordered_pair(list, 0, j);
        }
        assert(spans(list[0]));
        lemma_search_loop_fits(list, x, j, 0, list.len() - 1);
    }
}

proof fn lemma_insert_ordered(list: Seq<MediaSegmentInfo>, j: int, seg: MediaSegmentInfo)
    requires
        segments_ordered(list),
        spans(seg),
        apart(list, seg),
        fits(list, j, seg.originalBeginDts as int),
    ensures
        segments_ordered(list.insert(j + 1, seg)),
{
    let idx = j + 1;
    let n = list.insert(idx, seg);
    assert forall|i: int| 0 <= i < n.len() implies spans(#[trigger] n[i]) by {
        if i < idx {
            assert(n[i] == list[i]);
        } else if i > idx {
            assert(n[i] == list[i - 1]);
        }
    }
    assert forall|i: int| 0 <= i < n.len() - 1 implies last_dts(#[trigger] n[i]) < n[i + 1].originalBeginDts by {
        if i < idx - 1 {
            assert(n[i] == list[i]);
            assert(n[i + 1] == list[i + 1]);
        } else if i == idx - 1 {
            assert(n[i] == list[i]);
        } else if i == idx {
            assert(n[i + 1] == list[i]);
            assert(spans(list[i]));
            assert(last_dts(list[i]) < seg.originalBeginDts || last_dts(seg) < list[i].originalBeginDts);
        } else {
            assert(n[i] == list[i - 1]);
            assert(n[i + 1] == list[i]);
        }
    }
}

/// Appending keeps the list in order: a segment that spans its samples and overlaps none
/// of an ordered list goes where the list stays ordered, whichever way `append` finds the
/// place (the last append location or the search).
pub proof fn lemma_append_keeps_order(list: Seq<MediaSegmentInfo>, last: int, seg: MediaSegmentInfo)
    requires
        segments_ordered(list),
        spans(seg),
        apart(list, seg),
    ensures
        segments_ordered(list.insert(insert_index(list, last, seg.originalBeginDts), seg)),
        insert_index(list, last, seg.originalBeginDts) == slot_of(list, seg.originalBeginDts as int, list.len() as int) + 1,
{
    let x = seg.originalBeginDts;
    let j = slot_of(list, x as int, list.len() as int);
    lemma_fits_exists(list, seg);
    if last != -1 && 0 <= last < list.len() && (match list[last].lastSample {
        Some(s) => x >= s.originalDts,
        None => false,
    }) && (last == list.len() - 1 || (last < list.len() - 1 && x < list[last + 1].originalBeginDts)) {
        assert(last_dts(list[last]) < x) by {
            assert(spans(list[last]));
        }
        lemma_fits_unique(list, x as int, last, j);
    } else if list.len() > 0 {
        lemma_search_finds_slot(list, x, j);
    }
    lemma_insert_ordered(list, j, seg);
}

/// Where `append` puts a segment that begins at `x`.
pub open spec fn insert_index(list: Seq<MediaSegmentInfo>, last: int, x: i64) -> int {
    if last != -1 && 0 <= last < list.len() && (match list[last].lastSample {
        Some(s) => x >= s.originalDts,
        None => false,
    }) && (last == list.len() - 1 || (last < list.len() - 1 && x < list[last
        + 1].originalBeginDts)) {
        last + 1
    } else if list.len() > 0 {
        search_before(list, x) + 1
    } else {
        0
    }
}

/// Media segments of one track, kept in the order of their original dts.
pub struct MediaSegmentInfoList {
    _type: &'static str,
    _list: Vec<MediaSegmentInfo>,
    _lastAppendLocation: isize,
}

impl MediaSegmentInfoList {
    pub closed spec fn segments(&self) -> Seq<MediaSegmentInfo> {
        self._list@
    }

    pub closed spec fn last_append(&self) -> int {
        self._lastAppendLocation as int
    }

    pub closed spec fn track_type(&self) -> Seq<char> {
        self._type@
    }

    pub closed spec fn wf(&self) -> bool {
        &&& -1 <= self._lastAppendLocation
        &&& self._list@.len() < isize::MAX
    }

    pub fn new(track_type: &'static str) -> (r: MediaSegmentInfoList)
        ensures
            r.wf(),
            r.segments().len() == 0,
            r.last_append() == -1,
            r.track_type() == track_type@,
    {
        MediaSegmentInfoList { _type: track_type, _list: Vec::new(), _lastAppendLocation: -1 }
    }

    /// The track type this list was made for (`"audio"` or `"video"`).
    pub fn getType(&self) -> (r: &'static str)
        ensures
            r@ == self.track_type(),
    {
        self._type
    }

    pub fn length(&self) -> (r: usize)
        ensures
            r == self.segments().len(),
    {
        self._list.len()
    }

    pub fn isEmpty(&self) -> (r: bool)
        ensures
            r == (self.segments().len() == 0),
    {
        self._list.len() == 0
    }

    pub fn clear(&mut self)
        ensures
            final(self).wf(),
            final(self).segments().len() == 0,
            final(self).last_append() == -1,
            final(self).track_type() == old(self).track_type(),
    {
        self._list = Vec::new();
        self._lastAppendLocation = -1;
    }

    /// Index of the segment found for `originalBeginDts` (see [`search_before`]).
    pub fn _searchNearestSegmentBefore(&self, originalBeginDts: i64) -> (r: isize)
        requires
            self.wf(),
        ensures
            r == search_before(self.segments(), originalBeginDts),
            -2 <= r < self.segments().len(),
            self.segments().len() > 0 ==> r >= -1,
    {
        let list = &self._list;
        if list.len() == 0 {
            return -2;
        }
        let last: isize = (list.len() - 1) as isize;
        let mut lbound: isize = 0;
        let mut ubound: isize = last;
        if originalBeginDts < list[0].originalBeginDts {
            return -1;
        }
        proof {
            lemma_search_loop_range(list@, originalBeginDts, 0, last as int);
        }
        while lbound <= ubound
            invariant
                0 <= lbound,
                ubound <= last,
                last == list@.len() - 1,
                list@.len() < isize::MAX,
                list@.len() > 0,
                list@ == self.segments(),
                !(originalBeginDts < list@[0].originalBeginDts),
                0 <= search_loop(list@, originalBeginDts, 0, last as int) < list@.len(),
                search_loop(list@, originalBeginDts, 0, last as int) == search_loop(
                    list@,
                    originalBeginDts,
                    lbound as int,
                    ubound as int,
                ),
            decreases ubound - lbound + 1,
        {
            let mid: isize = lbound + (ubound - lbound) / 2;
            let m = mid as usize;
            let hit = if mid == last {
                true
            } else {
                let after = match list[m].lastSample {
                    Some(s) => originalBeginDts > s.originalDts,
                    None => false,
                };
                after && originalBeginDts < list[m + 1].originalBeginDts
            };
            proof {
                assert(mid as int == lbound + (ubound - lbound) / 2);
                if mid != last {
                    assert(hit == (after_last_sample(list@[mid as int], originalBeginDts)
                        && originalBeginDts < list@[mid + 1].originalBeginDts));
                }
            }
            if hit {
                assert(search_loop(list@, originalBeginDts, lbound as int, ubound as int) == mid);
                return mid;
            } else if list[m].originalBeginDts < originalBeginDts {
                lbound = mid + 1;
            } else {
                ubound = mid - 1;
            }
        }
        0
    }

    /// One past [`Self::_searchNearestSegmentBefore`].
    pub fn _searchNearestSegmentAfter(&self, originalBeginDts: i64) -> (r: isize)
        requires
            self.wf(),
        ensures
            r == search_before(self.segments(), originalBeginDts) + 1,
    {
        self._searchNearestSegmentBefore(originalBeginDts) + 1
    }

    /// Inserts a segment where its original dts puts it, trying the last insert location first.
    pub fn append(&mut self, mediaSegmentInfo: MediaSegmentInfo)
        requires
            old(self).wf(),
            old(self).segments().len() + 1 < isize::MAX,
        ensures
            final(self).wf(),
            final(self).track_type() == old(self).track_type(),
            final(self).last_append() == insert_index(
                old(self).segments(),
                old(self).last_append(),
                mediaSegmentInfo.originalBeginDts,
            ),
            final(self).segments() == old(self).segments().insert(
                final(self).last_append(),
                mediaSegmentInfo,
            ),
            0 <= final(self).last_append() <= old(self).segments().len(),
    {
        let msi = mediaSegmentInfo;
        let lastAppendIdx = self._lastAppendLocation;
        let len = self._list.len();
        let mut insertIdx: isize = 0;
        let cached = if lastAppendIdx != -1 && (lastAppendIdx as usize) < len {
            let li = lastAppendIdx as usize;
            let after = match self._list[li].lastSample {
                Some(s) => msi.originalBeginDts >= s.originalDts,
                None => false,
            };
            after && (li == len - 1 || (li < len - 1 && msi.originalBeginDts
                < self._list[li + 1].originalBeginDts))
        } else {
            false
        };
        if cached {
            insertIdx = lastAppendIdx + 1;  // use cached location idx
        } else {
            if len > 0 {
                insertIdx = self._searchNearestSegmentBefore(msi.originalBeginDts) + 1;
            }
        }
        self._lastAppendLocation = insertIdx;
        self._list.insert(insertIdx as usize, msi);
    }

    /// The segment found for `originalBeginDts`, when the search gives one.
    pub fn getLastSegmentBefore(&self, originalBeginDts: i64) -> (r: Option<&MediaSegmentInfo>)
        requires
            self.wf(),
        ensures
            search_before(self.segments(), originalBeginDts) >= 0 ==> r == Some(
                &self.segments()[search_before(self.segments(), originalBeginDts)],
            ),
            search_before(self.segments(), originalBeginDts) < 0 ==> r is None,
    {
        let idx = self._searchNearestSegmentBefore(originalBeginDts);
        if idx >= 0 {
            Some(&self._list[idx as usize])
        } else {
            None
        }
    }

    /// The last sample of the segment found for `originalBeginDts`.
    pub fn getLastSampleBefore(&self, originalBeginDts: i64) -> (r: Option<SampleInfo>)
        requires
            self.wf(),
        ensures
            search_before(self.segments(), originalBeginDts) >= 0 ==> r == self.segments()[search_before(
                self.segments(),
                originalBeginDts,
            )].lastSample,
            search_before(self.segments(), originalBeginDts) < 0 ==> r is None,
    {
        match self.getLastSegmentBefore(originalBeginDts) {
            Some(segment) => segment.lastSample,
            None => None,
        }
    }

    /// The last sync point in the segment found for `originalBeginDts` or in an earlier one.
    pub fn getLastSyncPointBefore(&self, originalBeginDts: i64) -> (r: Option<SampleInfo>)
        requires
            self.wf(),
        ensures
            r == last_sync_from(self.segments(), search_before(self.segments(), originalBeginDts)),
    {
        let mut segmentIdx = self._searchNearestSegmentBefore(originalBeginDts);
        if segmentIdx < 0 {
            return None;
        }
        while self._list[segmentIdx as usize].sync_point_count() == 0 && segmentIdx > 0
            invariant
                0 <= segmentIdx < self.segments().len(),
                last_sync_from(self.segments(), search_before(self.segments(), originalBeginDts))
                    == last_sync_from(self.segments(), segmentIdx as int),
            decreases segmentIdx,
        {
            segmentIdx = segmentIdx - 1;
        }
        if self._list[segmentIdx as usize].sync_point_count() > 0 {
            Some(self._list[segmentIdx as usize].last_sync_point())
        } else {
            None
        }
    }
}

} // verus!
