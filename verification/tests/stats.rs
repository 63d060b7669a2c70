use interact::stats::{FrameStats, PerfReport, REPORT_EVERY};

#[test]
fn report_every_300_frames() {
    let mut s = FrameStats::new();
    for i in 0..299u32 {
        assert_eq!(s.record(100, i, 50, 7), None);
    }
    let r = s.record(100, 5, 50, 9).unwrap();
    assert_eq!(
        r,
        PerfReport { sum_frame: 30000, max_frame: 298, sum_render: 15000, max_render: 9 }
    );
    assert_eq!(s.count, REPORT_EVERY);
    assert_eq!((s.sum_frame, s.max_frame, s.sum_render, s.max_render), (0, 0, 0, 0));
    for _ in 0..299 {
        assert!(s.record(1, 1, 1, 1).is_none());
    }
    assert_eq!(s.record(1, 1, 1, 1).unwrap().sum_frame, 300);
}

#[test]
fn sums_wrap_around() {
    let mut s = FrameStats::new();
    s.sum_frame = u64::MAX;
    s.count = 1;
    assert!(s.record(2, 0, 0, 0).is_none());
    assert_eq!(s.sum_frame, 1);
}

#[test]
fn max_uses_float_bit_order() {
    let mut s = FrameStats::new();
    s.record(0, 12.5f32.to_bits(), 0, 1.0f32.to_bits());
    s.record(0, 3.0f32.to_bits(), 0, 2.0f32.to_bits());
    assert_eq!(f32::from_bits(s.max_frame), 12.5);
    assert_eq!(f32::from_bits(s.max_render), 2.0);
}
