use esp32cam::{next_capture_step, store_capture, CaptureReport, CaptureStep, FrameQueue};

#[test]
fn capture_reads_sensor_only_with_room() {
    let mut q = FrameQueue::with_capacity(1);
    let step = next_capture_step(&q);
    assert!(matches!(step, CaptureStep::Capture));
    assert!(!step.wakes_consumer());
    let report = store_capture(&mut q, Some(vec![1, 2, 3]));
    assert!(matches!(report, CaptureReport::Enqueued(1)));
    assert!(report.wakes_consumer());
    let step = next_capture_step(&q);
    assert!(matches!(step, CaptureStep::WaitForSpace));
    assert!(step.wakes_consumer());
}

#[test]
fn empty_sensor_read_changes_nothing() {
    let mut q = FrameQueue::with_capacity(2);
    let report = store_capture(&mut q, None);
    assert!(matches!(report, CaptureReport::NoFrame));
    assert!(!report.wakes_consumer());
    assert!(q.is_empty());
}

#[test]
fn capture_into_full_queue_hands_frame_back() {
    let mut q = FrameQueue::with_capacity(1);
    assert!(matches!(store_capture(&mut q, Some(vec![7])), CaptureReport::Enqueued(1)));
    match store_capture(&mut q, Some(vec![8])) {
        CaptureReport::Full(f) => assert_eq!(f, vec![8]),
        _ => panic!("a full queue took a frame"),
    }
    assert_eq!(q.len(), 1);
    assert_eq!(q.try_dequeue(), Some(vec![7]));
}
