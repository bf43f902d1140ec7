//! Tests for the detection adapter, the capture timing, the video-source
//! decision, and the polygon containment test.

use road_anomaly_detection::detection::process_yolo_detections;
use road_anomaly_detection::events::EventBBox;
use road_anomaly_detection::geometry::{quad_contains, Quad, Vertex};
use road_anomaly_detection::video_capture::{
    parse_i32, resolve_video_source, CaptureTimer, VideoCaptureError, VideoSourceKind,
};
use road_anomaly_detection::zones::Zone;

#[test]
fn detector_length_mismatch_yields_empty() {
    // boxes/class-ids/confidences disagree in length: empty detection set,
    // not a failure
    let boxes = vec![EventBBox { x: 0, y: 0, width: 10, height: 10 }];
    let r = process_yolo_detections(
        &boxes,
        vec![0, 1],
        vec![500],
        &vec!["car".to_string()],
        &vec![],
        640,
        480,
        320,
        240,
    );
    assert_eq!(r.blobs.len(), 0);
    assert_eq!(r.class_names.len(), 0);
    assert_eq!(r.confidences.len(), 0);
}

#[test]
fn detector_rescales_to_frame_space() {
    let boxes = vec![EventBBox { x: 10, y: 20, width: 30, height: 40 }];
    let r = process_yolo_detections(
        &boxes,
        vec![0],
        vec![500],
        &vec!["car".to_string()],
        &vec![],
        640,
        480,
        320,
        240,
    );
    assert_eq!(r.blobs.len(), 1);
    let b = r.blobs[0];
    // both dimensions scale by a factor of two
    assert_eq!(b.bbox_x, 20);
    assert_eq!(b.bbox_y, 40);
    assert_eq!(b.bbox_width, 60);
    assert_eq!(b.bbox_height, 80);
    assert_eq!(b.center_x, 50);
    assert_eq!(b.center_y, 80);
    assert_eq!(r.class_names, vec!["car".to_string()]);
    assert_eq!(r.confidences, vec![500]);
}

#[test]
fn detector_filters_classes() {
    let boxes = vec![
        EventBBox { x: 0, y: 0, width: 10, height: 10 },
        EventBBox { x: 5, y: 5, width: 10, height: 10 },
        EventBBox { x: 9, y: 9, width: 10, height: 10 },
    ];
    let net_classes = vec!["car".to_string(), "person".to_string()];
    let targets = vec!["car".to_string()];
    // class id 7 is out of range, "person" is not in the allow-list
    let r = process_yolo_detections(
        &boxes,
        vec![0, 7, 1],
        vec![900, 800, 700],
        &net_classes,
        &targets,
        100,
        100,
        100,
        100,
    );
    assert_eq!(r.blobs.len(), 1);
    assert_eq!(r.class_names, vec!["car".to_string()]);
    // only the surviving detection's confidence is kept, aligned with it
    assert_eq!(r.confidences, vec![900]);
}

#[test]
fn detector_confidences_stay_aligned_after_a_skip() {
    // the first detection is dropped (class id out of range); the survivor
    // must keep its own confidence at index 0
    let boxes = vec![
        EventBBox { x: 0, y: 0, width: 10, height: 10 },
        EventBBox { x: 5, y: 5, width: 10, height: 10 },
    ];
    let r = process_yolo_detections(
        &boxes,
        vec![7, 0],
        vec![900, 700],
        &vec!["car".to_string()],
        &vec![],
        100,
        100,
        100,
        100,
    );
    assert_eq!(r.blobs.len(), 1);
    assert_eq!(r.class_names, vec!["car".to_string()]);
    assert_eq!(r.confidences, vec![700]);
    assert_eq!(r.blobs[0].bbox_x, 5);
}

#[test]
fn capture_timer_rolls_seconds() {
    let mut timer = CaptureTimer::new(10);
    // nine frames inside the first second
    for k in 1..10u64 {
        let (secs, millis) = timer.on_frame();
        assert_eq!(secs, 0);
        assert_eq!(millis, k * 100);
    }
    // the tenth frame completes the second
    let (secs, millis) = timer.on_frame();
    assert_eq!(secs, 1);
    assert_eq!(millis, 1000);
    let (secs, millis) = timer.on_frame();
    assert_eq!(secs, 1);
    assert_eq!(millis, 1100);
}

#[test]
fn capture_timer_empty_frame_limit() {
    let mut timer = CaptureTimer::new(25);
    for _ in 0..59 {
        assert!(!timer.on_empty_frame());
    }
    assert!(timer.on_empty_frame());
}

#[test]
fn capture_timer_good_frame_resets_empty_count() {
    let mut timer = CaptureTimer::new(25);
    for _ in 0..59 {
        assert!(!timer.on_empty_frame());
    }
    timer.on_frame();
    assert!(!timer.on_empty_frame());
}

#[test]
fn parse_i32_accepts_decimal_integers() {
    assert_eq!(parse_i32("0"), Ok(0));
    assert_eq!(parse_i32("123"), Ok(123));
    assert_eq!(parse_i32("+7"), Ok(7));
    assert_eq!(parse_i32("-3"), Ok(-3));
    assert_eq!(parse_i32("2147483647"), Ok(i32::MAX));
    assert_eq!(parse_i32("-2147483648"), Ok(i32::MIN));
}

#[test]
fn parse_i32_rejects_garbage_and_overflow() {
    assert_eq!(parse_i32(""), Err(()));
    assert_eq!(parse_i32("-"), Err(()));
    assert_eq!(parse_i32("12a"), Err(()));
    assert_eq!(parse_i32("2147483648"), Err(()));
    assert_eq!(parse_i32("-2147483649"), Err(()));
    assert_eq!(parse_i32("99999999999999999999"), Err(()));
}

#[test]
fn resolve_video_source_decides_stream_or_device() {
    assert_eq!(
        resolve_video_source("rtsp://camera/1", "rtsp").unwrap(),
        VideoSourceKind::Stream
    );
    assert_eq!(resolve_video_source("2", "device").unwrap(), VideoSourceKind::Device(2));
    let r = resolve_video_source("not-a-number", "device");
    match r {
        Err(VideoCaptureError::VideoError(e)) => {
            assert_eq!(e.typ, 1);
            assert_eq!(e.message(), "Invalid device identifier");
        },
        _ => panic!("expected a device-identifier error"),
    }
}

#[test]
fn quad_containment_is_strict() {
    let q = Quad {
        v0: Vertex { x: 0, y: 0 },
        v1: Vertex { x: 10, y: 0 },
        v2: Vertex { x: 10, y: 10 },
        v3: Vertex { x: 0, y: 10 },
    };
    assert!(quad_contains(&q, Vertex { x: 5, y: 5 }));
    assert!(quad_contains(&q, Vertex { x: 1, y: 9 }));
    // boundary points count as outside
    assert!(!quad_contains(&q, Vertex { x: 0, y: 5 }));
    assert!(!quad_contains(&q, Vertex { x: 10, y: 10 }));
    assert!(!quad_contains(&q, Vertex { x: 5, y: 0 }));
    // clearly outside
    assert!(!quad_contains(&q, Vertex { x: 15, y: 5 }));
    assert!(!quad_contains(&q, Vertex { x: -1, y: 5 }));
}

#[test]
fn zone_new_keeps_geometry_and_color() {
    let zone = Zone::new(
        "gate".to_string(),
        [[1, 2], [3, 4], [5, 6], [7, 8]],
        Some([10, 20, 30]),
    );
    assert_eq!(zone.id, "gate");
    assert_eq!(zone.polygon.v0, Vertex { x: 1, y: 2 });
    assert_eq!(zone.polygon.v3, Vertex { x: 7, y: 8 });
    assert_eq!(zone.color, [10, 20, 30]);
    assert!(zone.objects_registered.is_empty());
    let dark = Zone::new("d".to_string(), [[0, 0], [1, 0], [1, 1], [0, 1]], None);
    assert_eq!(dark.color, [0, 0, 0]);
}

#[test]
fn zone_contains_point_matches_polygon() {
    let zone = Zone::new("z".to_string(), [[0, 0], [640, 0], [640, 480], [0, 480]], None);
    assert!(zone.contains_point(100, 100));
    assert!(!zone.contains_point(0, 0));
    assert!(!zone.contains_point(700, 100));
}
