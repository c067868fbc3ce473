use cloud_sync_receiver::error::ReceiveError;
use cloud_sync_receiver::watermark::{Timestamp, WatermarkMap};

fn ts(secs: i64, nanos: u32) -> Timestamp {
    Timestamp { secs, nanos }
}

#[test]
fn merge_keeps_the_maximum_per_device() {
    let mut w = WatermarkMap::new();
    w.merge(1, ts(10, 0));
    w.merge(1, ts(5, 0));
    w.merge(2, ts(7, 3));
    w.merge(1, ts(10, 1));
    w.merge(2, ts(7, 2));
    assert_eq!(w.get(1), Some(ts(10, 1)));
    assert_eq!(w.get(2), Some(ts(7, 3)));
    assert_eq!(w.get(3), None);
    assert_eq!(w.len(), 2);
}

#[test]
fn merge_all_matches_single_merges() {
    let ops = vec![(1u128, ts(3, 0)), (2, ts(1, 0)), (1, ts(2, 0)), (2, ts(4, 0))];
    let mut a = WatermarkMap::new();
    a.merge_all(&ops);
    assert_eq!(a.get(1), Some(ts(3, 0)));
    assert_eq!(a.get(2), Some(ts(4, 0)));
}

#[test]
fn merge_of_equal_timestamp_keeps_value() {
    let mut w = WatermarkMap::new();
    w.merge(9, ts(4, 4));
    w.merge(9, ts(4, 4));
    assert_eq!(w.get(9), Some(ts(4, 4)));
    assert_eq!(w.len(), 1);
}

#[test]
fn timestamp_order_is_seconds_then_nanos() {
    assert!(ts(2, 0).is_after(&ts(1, 999_999_999)));
    assert!(ts(1, 5).is_after(&ts(1, 4)));
    assert!(!ts(1, 4).is_after(&ts(1, 4)));
    assert!(!ts(-1, 0).is_after(&ts(0, 0)));
}

#[test]
fn set_overwrites_whatever_was_stored() {
    let mut w = WatermarkMap::new();
    w.set(1, ts(9, 0));
    w.set(1, ts(3, 0));
    assert_eq!(w.get(1), Some(ts(3, 0)));
}

#[test]
fn start_times_list_every_watermark() {
    let mut w = WatermarkMap::new();
    w.merge(1, ts(1, 0));
    w.merge(2, ts(2, 0));
    let mut s = w.start_times();
    s.sort_by_key(|e| e.0);
    assert_eq!(s, vec![(1, ts(1, 0)), (2, ts(2, 0))]);
}

#[test]
fn encoding_is_postcard_of_the_entries() {
    let mut w = WatermarkMap::new();
    w.merge(1, ts(2, 3));
    assert_eq!(w.to_bytes().unwrap(), vec![1u8, 1, 4, 3]);
}

#[test]
fn save_then_load_reproduces_the_mapping() {
    let mut w = WatermarkMap::new();
    w.merge(0x1234_5678_9abc_def0_1122_3344_5566_7788, ts(1_700_000_000, 123_456_789));
    w.merge(42, ts(-5, 1));
    w.merge(7, ts(0, 0));
    let bytes = w.to_bytes().unwrap();
    let back = WatermarkMap::from_file_contents(Some(&bytes)).unwrap();
    assert_eq!(back.len(), 3);
    assert_eq!(
        back.get(0x1234_5678_9abc_def0_1122_3344_5566_7788),
        Some(ts(1_700_000_000, 123_456_789))
    );
    assert_eq!(back.get(42), Some(ts(-5, 1)));
    assert_eq!(back.get(7), Some(ts(0, 0)));
}

#[test]
fn empty_map_round_trips() {
    let w = WatermarkMap::new();
    let bytes = w.to_bytes().unwrap();
    assert_eq!(bytes, vec![0u8]);
    let back = WatermarkMap::from_bytes(&bytes).unwrap();
    assert_eq!(back.len(), 0);
}

#[test]
fn absent_file_gives_empty_map() {
    let w = WatermarkMap::from_file_contents(None).unwrap();
    assert_eq!(w.len(), 0);
}

#[test]
fn corrupt_file_is_an_error() {
    let r = WatermarkMap::from_file_contents(Some(&[5u8]));
    assert!(matches!(r, Err(ReceiveError::WatermarkSerialization)));
}

#[test]
fn duplicate_devices_in_file_keep_the_last() {
    // two entries for device 1: (1, 2, 0) then (1, 1, 0)
    let bytes = vec![2u8, 1, 4, 0, 1, 2, 0];
    let w = WatermarkMap::from_bytes(&bytes).unwrap();
    assert_eq!(w.len(), 1);
    assert_eq!(w.get(1), Some(ts(1, 0)));
}
