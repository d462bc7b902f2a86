use flv_mp4::media_segment_info::{MediaSegmentInfo, MediaSegmentInfoList, SampleInfo};

fn seg(begin: i64, last: i64) -> MediaSegmentInfo {
    let mut s = MediaSegmentInfo::new();
    s.beginDts = begin;
    s.endDts = last + 10;
    s.originalBeginDts = begin;
    s.originalEndDts = last + 10;
    s.firstSample = Some(SampleInfo::new(begin, begin, 10, begin, true));
    s.lastSample = Some(SampleInfo::new(last, last, 10, last, false));
    s
}

fn three_segments() -> MediaSegmentInfoList {
    let mut list = MediaSegmentInfoList::new("video");
    let mut first = seg(0, 90);
    first.appendSyncPoint(SampleInfo::new(0, 0, 10, 0, true));
    list.append(first);
    list.append(seg(200, 290));
    list.append(seg(100, 190));
    list
}

#[test]
fn new_list_is_empty() {
    let list = MediaSegmentInfoList::new("audio");
    assert_eq!(list.getType(), "audio");
    assert_eq!(list.length(), 0);
    assert!(list.isEmpty());
    assert_eq!(list._searchNearestSegmentBefore(5), -2);
    assert!(list.getLastSegmentBefore(5).is_none());
}

#[test]
fn append_keeps_segments_in_order() {
    let list = three_segments();
    assert_eq!(list.length(), 3);
    assert!(!list.isEmpty());
    assert_eq!(list.getLastSegmentBefore(95).unwrap().originalBeginDts, 0);
    assert_eq!(list.getLastSegmentBefore(195).unwrap().originalBeginDts, 100);
    assert_eq!(list.getLastSegmentBefore(300).unwrap().originalBeginDts, 200);
}

#[test]
fn search_finds_the_segment_before() {
    let list = three_segments();
    assert_eq!(list._searchNearestSegmentBefore(-5), -1);
    assert_eq!(list._searchNearestSegmentBefore(95), 0);
    assert_eq!(list._searchNearestSegmentBefore(195), 1);
    assert_eq!(list._searchNearestSegmentBefore(300), 2);
    assert_eq!(list._searchNearestSegmentAfter(95), 1);
    assert!(list.getLastSegmentBefore(-5).is_none());
}

#[test]
fn last_sample_and_sync_point_before() {
    let list = three_segments();
    let s = list.getLastSampleBefore(195).unwrap();
    assert_eq!(s.originalDts, 190);
    let p = list.getLastSyncPointBefore(195).unwrap();
    assert_eq!(p.originalDts, 0);
    assert!(p.isSyncPoint);
    assert!(list.getLastSyncPointBefore(-5).is_none());
}

#[test]
fn clear_empties_the_list() {
    let mut list = three_segments();
    list.clear();
    assert_eq!(list.length(), 0);
    assert_eq!(list.getType(), "video");
}

#[test]
fn sync_points_are_kept_in_order() {
    let mut s = MediaSegmentInfo::new();
    s.appendSyncPoint(SampleInfo::new(0, 0, 40, 0, true));
    s.appendSyncPoint(SampleInfo::new(80, 80, 40, 80, true));
    let copy = s.copy();
    let points = copy.syncPoints();
    assert_eq!(points.len(), 2);
    assert_eq!(points[1].dts, 80);
}
