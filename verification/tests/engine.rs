//! Scenario tests for the track lifecycle manager and the zone engine.

use road_anomaly_detection::detection::{DetectionBlob, Detections};
use road_anomaly_detection::events::{EventBBox, EventPOI};
use road_anomaly_detection::tracker::{ExtraEntry, ObjectExtra, TrackObs, Tracker};
use road_anomaly_detection::zones::Zone;

fn obs(id: u128, cx: i32, cy: i32) -> TrackObs {
    TrackObs {
        id,
        bbox: EventBBox { x: cx - 10, y: cy - 10, width: 20, height: 20 },
        center: EventPOI { x: cx, y: cy },
        no_match_times: 0,
    }
}

fn one_detection(class: &str, confidence: u32) -> Detections {
    Detections {
        blobs: vec![DetectionBlob {
            center_x: 0,
            center_y: 0,
            bbox_x: 0,
            bbox_y: 0,
            bbox_width: 0,
            bbox_height: 0,
        }],
        class_names: vec![class.to_string()],
        confidences: vec![confidence],
    }
}

fn extra(class: &str, registered: i64, updated: i64) -> ObjectExtra {
    ObjectExtra {
        class_name: class.to_string(),
        confidence: 800,
        register_unix_tm: registered,
        register_relative_second: 0,
        updated_unix_tm: updated,
        updated_relative_second: 0,
    }
}

#[test]
fn scenario_full_frame_dwell_and_rearm() {
    // Full-frame zone on a 640x480 stream, thresholds 2s/10s, one synthetic
    // track centered at (100,100) for 15 simulated seconds at 10 fps: one
    // event once the dwell exceeds 2s, a metadata reset once it exceeds 10s,
    // and a second event 3s after the reset (strictly-greater thresholds on a
    // whole-second clock).
    let mut zone = Zone::new(
        "full".to_string(),
        [[0, 0], [640, 0], [640, 480], [0, 480]],
        Some([0, 0, 255]),
    );
    let mut tracker = Tracker::new();
    let base: i64 = 1000;
    let mut log: Vec<(usize, road_anomaly_detection::events::EventInfo)> = Vec::new();
    for frame in 0..150usize {
        let now = base + (frame as i64) / 10;
        let rel_ms = (frame as u64) * 100;
        let dets = one_detection("car", 900);
        tracker.reconcile_at(vec![obs(42, 100, 100)], &vec![42u128], &dets, rel_ms, now);
        let evs = zone.process_tracker_at(&mut tracker, 2, 10, Some("eq1".to_string()), None, now);
        if frame == 110 {
            // lifetime first exceeded 10s here: re-arm drops the metadata
            // entry and the registration, without an event
            assert_eq!(evs.len(), 0);
            assert_eq!(tracker.objects_extra.len(), 0);
            assert_eq!(zone.objects_registered.len(), 0);
        }
        for e in evs {
            log.push((frame, e));
        }
    }
    assert_eq!(log.len(), 2);

    let (f1, ref e1) = log[0];
    assert_eq!(f1, 30);
    assert_eq!(e1.event_registered_at, 1003);
    assert_eq!(e1.object_registered_at, 1000);
    assert_eq!(e1.object_lifetime, 3);
    assert_eq!(e1.zone_id, "full");
    assert_eq!(e1.object_id, "00000000-0000-0000-0000-00000000002a");
    assert_eq!(e1.object_classname, "car");
    assert_eq!(e1.object_confidence, 900);
    assert_eq!(e1.equipment_id, Some("eq1".to_string()));
    assert_eq!(e1.object_poi, EventPOI { x: 100, y: 100 });
    assert_eq!(e1.object_bbox, EventBBox { x: 90, y: 90, width: 20, height: 20 });
    // a version-4 event id
    assert_eq!((e1.id >> 76) & 0xf, 4);

    let (f2, ref e2) = log[1];
    assert_eq!(f2, 140);
    assert_eq!(e2.object_registered_at, 1011);
    assert_eq!(e2.object_lifetime, 3);
}

#[test]
fn class_and_confidence_kept_from_first_observation() {
    // Re-observation refreshes timestamps only: class and confidence stay as
    // first recorded.
    let mut tracker = Tracker::new();
    tracker.reconcile_at(vec![obs(5, 50, 50)], &vec![5u128], &one_detection("car", 700), 0, 100);
    tracker.reconcile_at(
        vec![obs(5, 52, 50)],
        &vec![5u128],
        &one_detection("truck", 999),
        100,
        101,
    );
    assert_eq!(tracker.objects_extra.len(), 1);
    assert_eq!(tracker.objects_extra[0].extra.get_classname(), "car");
    assert_eq!(tracker.objects_extra[0].extra.get_confidence(), 700);
    assert_eq!(tracker.objects_extra[0].extra.get_register_time(), 100);
    assert_eq!(tracker.objects_extra[0].extra.get_lifetime(), 1);
}

#[test]
fn metadata_subset_after_reconcile() {
    // The metadata key set stays a subset of the track table's key set.
    let mut tracker = Tracker::new();
    tracker.reconcile_at(
        vec![obs(1, 10, 10), obs(2, 20, 20)],
        &vec![1u128, 2u128, 3u128],
        &Detections {
            blobs: vec![
                DetectionBlob {
                    center_x: 0,
                    center_y: 0,
                    bbox_x: 0,
                    bbox_y: 0,
                    bbox_width: 0,
                    bbox_height: 0,
                };
                3
            ],
            class_names: vec!["a".to_string(), "b".to_string(), "c".to_string()],
            confidences: vec![1, 2, 3],
        },
        0,
        100,
    );
    // identity 3 was matched but is absent from the table: purged
    assert_eq!(tracker.objects_extra.len(), 2);
    for entry in &tracker.objects_extra {
        assert!(tracker.objects.iter().any(|o| o.id == entry.id));
    }
}

#[test]
fn purge_on_disappearance_clears_metadata_and_registration() {
    let mut zone = Zone::new("z".to_string(), [[0, 0], [200, 0], [200, 200], [0, 200]], None);
    let mut tracker = Tracker::new();
    // register the track: observed since 1000, processed at 1005 (dwell 5s)
    tracker.reconcile_at(vec![obs(9, 100, 100)], &vec![9u128], &one_detection("car", 600), 0, 1000);
    tracker.reconcile_at(
        vec![obs(9, 100, 100)],
        &vec![9u128],
        &one_detection("car", 600),
        5000,
        1005,
    );
    let evs = zone.process_tracker_at(&mut tracker, 2, 10, None, None, 1005);
    assert_eq!(evs.len(), 1);
    assert_eq!(zone.objects_registered, vec![9u128]);

    // the identity vanishes from the track table: metadata purged now,
    // registration purged by the next walk, no event on removal
    tracker.reconcile_at(vec![], &vec![], &one_detection("car", 600), 6000, 1006);
    assert_eq!(tracker.objects_extra.len(), 0);
    let evs = zone.process_tracker_at(&mut tracker, 2, 10, None, None, 1006);
    assert_eq!(evs.len(), 0);
    assert_eq!(zone.objects_registered.len(), 0);
}

#[test]
fn dwell_threshold_boundary() {
    // lifetime == minimum does not qualify; one second more does
    let mut zone = Zone::new("z".to_string(), [[0, 0], [200, 0], [200, 200], [0, 200]], None);
    let mut tracker = Tracker {
        objects: vec![obs(3, 50, 50)],
        objects_extra: vec![ExtraEntry { id: 3, extra: extra("car", 1000, 1002) }],
    };
    let evs = zone.process_tracker_at(&mut tracker, 2, 10, None, None, 1002);
    assert_eq!(evs.len(), 0);
    assert_eq!(zone.objects_registered.len(), 0);

    tracker.objects_extra[0].extra.updated_unix_tm = 1003;
    let evs = zone.process_tracker_at(&mut tracker, 2, 10, None, None, 1003);
    assert_eq!(evs.len(), 1);
    assert_eq!(evs[0].object_lifetime, 3);
}

#[test]
fn overlapping_zones_emit_independently() {
    // one track inside two overlapping zones: one event per zone in the same
    // frame, each carrying its own zone id
    let mut zone_a = Zone::new("a".to_string(), [[0, 0], [150, 0], [150, 150], [0, 150]], None);
    let mut zone_b = Zone::new("b".to_string(), [[50, 50], [200, 50], [200, 200], [50, 200]], None);
    let mut tracker = Tracker {
        objects: vec![obs(7, 100, 100)],
        objects_extra: vec![ExtraEntry { id: 7, extra: extra("car", 1000, 1005) }],
    };
    let evs_a = zone_a.process_tracker_at(&mut tracker, 2, 10, None, None, 1005);
    let evs_b = zone_b.process_tracker_at(&mut tracker, 2, 10, None, None, 1005);
    assert_eq!(evs_a.len(), 1);
    assert_eq!(evs_b.len(), 1);
    assert_eq!(evs_a[0].zone_id, "a");
    assert_eq!(evs_b[0].zone_id, "b");
    assert_eq!(evs_a[0].object_id, evs_b[0].object_id);
}

#[test]
fn invisible_and_unknown_tracks_are_skipped() {
    let mut zone = Zone::new("z".to_string(), [[0, 0], [200, 0], [200, 200], [0, 200]], None);
    // more than one missed frame: not evaluated
    let mut hidden = obs(1, 100, 100);
    hidden.no_match_times = 2;
    // no metadata entry: skipped defensively
    let stranger = obs(2, 100, 100);
    let mut tracker = Tracker {
        objects: vec![hidden, stranger],
        objects_extra: vec![ExtraEntry { id: 1, extra: extra("car", 1000, 1005) }],
    };
    let evs = zone.process_tracker_at(&mut tracker, 2, 10, None, None, 1005);
    assert_eq!(evs.len(), 0);
    assert_eq!(zone.objects_registered.len(), 0);
}

#[test]
fn outside_center_produces_no_event() {
    let mut zone = Zone::new("z".to_string(), [[0, 0], [50, 0], [50, 50], [0, 50]], None);
    let mut tracker = Tracker {
        objects: vec![obs(4, 100, 100)],
        objects_extra: vec![ExtraEntry { id: 4, extra: extra("car", 1000, 1005) }],
    };
    let evs = zone.process_tracker_at(&mut tracker, 2, 10, None, None, 1005);
    assert_eq!(evs.len(), 0);
}

#[test]
fn event_snapshot_carries_frame_bytes() {
    let mut zone = Zone::new("z".to_string(), [[0, 0], [200, 0], [200, 200], [0, 200]], None);
    let mut tracker = Tracker {
        objects: vec![obs(8, 100, 100)],
        objects_extra: vec![ExtraEntry { id: 8, extra: extra("car", 1000, 1005) }],
    };
    let frame_bytes: Vec<u8> = vec![77, 97, 110];
    let evs = zone.process_tracker_at(&mut tracker, 2, 10, None, Some(&frame_bytes), 1005);
    assert_eq!(evs.len(), 1);
    assert_eq!(evs[0].event_image, Some(vec![77, 97, 110]));
    // standard padded base64 of the snapshot
    assert_eq!(evs[0].image_base64(), Some("TWFu".to_string()));
}
