//! Tests for configuration validation, error rendering, the publisher
//! connection setup, and event construction.

use road_anomaly_detection::app_error::{AppError, AppInternalError};
use road_anomaly_detection::app_settings::{
    AppSettings, ApplicationInfo, DetectionSettings, InputSettings, ModelFormat, ModelVersion,
    OutputSettings, TrackingSettings,
};
use road_anomaly_detection::events::{EventBBox, EventInfo, EventPOI};
use road_anomaly_detection::publisher::{
    channel_name_handler, PublisherInternalError, RedisConnection,
};
use road_anomaly_detection::strfmt::{i64_to_string, u64_to_string};

fn detection_settings(format: Option<&str>, version: Option<i32>) -> DetectionSettings {
    DetectionSettings {
        network_ver: version,
        network_format: format.map(|s| s.to_string()),
        network_weights: "weights.bin".to_string(),
        network_cfg: None,
        conf_threshold: 250,
        nms_threshold: 400,
        net_width: 416,
        net_height: 416,
        net_classes: vec!["car".to_string()],
        target_classes: None,
    }
}

fn settings(min: u64, max: u64) -> AppSettings {
    AppSettings {
        application_info: ApplicationInfo { id: "app1".to_string() },
        input: InputSettings {
            video_source: "0".to_string(),
            video_source_typ: "device".to_string(),
        },
        output: OutputSettings {
            enable: false,
            width: 640,
            height: 480,
            window_name: "w".to_string(),
        },
        detection: detection_settings(None, None),
        tracking: TrackingSettings {
            delay_seconds: 1,
            lifetime_seconds_min: min,
            lifetime_seconds_max: max,
        },
        zones: None,
        publishers: None,
    }
}

#[test]
fn decimal_rendering() {
    assert_eq!(u64_to_string(0), "0");
    assert_eq!(u64_to_string(42), "42");
    assert_eq!(u64_to_string(10200), "10200");
    assert_eq!(i64_to_string(-123), "-123");
    assert_eq!(i64_to_string(7), "7");
    assert_eq!(i64_to_string(i64::MIN), "-9223372036854775808");
}

#[test]
fn channel_name_defaults_when_empty() {
    assert_eq!(channel_name_handler("".to_string()), "ROAD_ANOMALIES_EVENTS");
    assert_eq!(channel_name_handler("alerts".to_string()), "alerts");
}

#[test]
fn redis_connection_setup() {
    let conn = RedisConnection::new("localhost".to_string(), 6379, 0, "".to_string())
        .expect("URL must parse");
    assert_eq!(conn.channel_name, "ROAD_ANOMALIES_EVENTS");

    let mut conn =
        RedisConnection::new_with_password("localhost".to_string(), 6380, 1, "ch".to_string(),
            "pw1".to_string()).expect("URL must parse");
    assert_eq!(conn.channel_name, "ch");
    conn.set_channel("".to_string());
    assert_eq!(conn.channel_name, "ROAD_ANOMALIES_EVENTS");

    let conn = RedisConnection::new_with_username_password(
        "localhost".to_string(),
        6381,
        2,
        "events".to_string(),
        "user".to_string(),
        "pw2".to_string(),
    )
    .expect("URL must parse");
    assert_eq!(conn.channel_name, "events");
}

#[test]
fn redis_connection_rejects_unparsable_url() {
    // a negative port cannot appear in a connection URL: the parser refuses
    assert!(RedisConnection::new("localhost".to_string(), -1, 0, "c".to_string()).is_err());
    // a space is not a valid host character
    assert!(RedisConnection::new("local host".to_string(), 6379, 0, "c".to_string()).is_err());
}

#[test]
fn nn_format_resolution() {
    assert_eq!(detection_settings(None, None).get_nn_format().unwrap(), ModelFormat::Darknet);
    assert_eq!(
        detection_settings(Some("DarkNet"), None).get_nn_format().unwrap(),
        ModelFormat::Darknet
    );
    assert_eq!(detection_settings(Some("ONNX"), None).get_nn_format().unwrap(), ModelFormat::ONNX);
    match detection_settings(Some("caffe"), None).get_nn_format() {
        Err(AppError::Internal(e)) => {
            assert_eq!(e.typ, 3);
            assert_eq!(e.txt, "caffe");
            assert_eq!(e.message(), "Bad model format: 'caffe'");
        },
        _ => panic!("unknown format must be rejected"),
    }
}

#[test]
fn nn_version_resolution() {
    assert_eq!(detection_settings(None, None).get_nn_version().unwrap(), ModelVersion::V3);
    assert_eq!(detection_settings(None, Some(4)).get_nn_version().unwrap(), ModelVersion::V4);
    assert_eq!(detection_settings(None, Some(7)).get_nn_version().unwrap(), ModelVersion::V7);
    assert_eq!(detection_settings(None, Some(8)).get_nn_version().unwrap(), ModelVersion::V8);
    match detection_settings(None, Some(5)).get_nn_version() {
        Err(AppError::Internal(e)) => {
            assert_eq!(e.typ, 4);
            assert_eq!(e.txt, "5");
            assert_eq!(e.message(), "Bad model version: '5'");
        },
        _ => panic!("unsupported version must be rejected"),
    }
}

#[test]
fn build_validates_lifetimes() {
    match settings(10, 10).build() {
        Err(AppError::Internal(e)) => {
            assert_eq!(e.typ, 5);
            assert_eq!(e.txt, "Incorrect lifetimes. Min: 10, Max: 10");
            assert_eq!(e.message(), "Bad tracker parameters: 'Incorrect lifetimes. Min: 10, Max: 10'");
        },
        _ => panic!("equal lifetimes must be rejected"),
    }
    let app = settings(2, 10).build().expect("valid settings must build");
    assert_eq!(app.model_format, ModelFormat::Darknet);
    assert_eq!(app.model_version, ModelVersion::V3);
    assert_eq!(app.tracking.lifetime_seconds_min, 2);
    assert_eq!(app.application_info.id, "app1");
}

#[test]
fn app_internal_error_messages() {
    let m = |typ: i16, txt: &str| AppInternalError { typ, txt: txt.to_string() }.message();
    assert_eq!(m(1, ""), "Invalid device identifier");
    assert_eq!(m(2, ""), "Video has not been opened");
    assert_eq!(m(3, "x"), "Bad model format: 'x'");
    assert_eq!(m(9, ""), "Undefined VideoCapture error");
}

#[test]
fn publisher_internal_error_message() {
    let e = PublisherInternalError("boom".to_string());
    assert_eq!(e.message(), "PublisherInternalError: boom");
}

#[test]
fn event_construction() {
    let frame: Vec<u8> = vec![1, 2, 3, 4];
    let ev = EventInfo::new(
        1700000000,
        Some(&frame),
        "00000000-0000-0000-0000-000000000007".to_string(),
        1699999990,
        10,
        EventBBox { x: 1, y: 2, width: 3, height: 4 },
        EventPOI { x: 2, y: 4 },
        "car".to_string(),
        950,
        "gate".to_string(),
        None,
    );
    assert_eq!(ev.event_registered_at, 1700000000);
    assert_eq!(ev.object_registered_at, 1699999990);
    assert_eq!(ev.object_lifetime, 10);
    assert_eq!(ev.event_image, Some(vec![1, 2, 3, 4]));
    assert_eq!(ev.get_id(), ev.id);
    // version-4, RFC-variant event id
    assert_eq!((ev.id >> 76) & 0xf, 4);
    assert_eq!((ev.id >> 62) & 3, 2);

    let bare = EventInfo::new(
        0,
        None,
        "x".to_string(),
        0,
        0,
        EventBBox { x: 0, y: 0, width: 0, height: 0 },
        EventPOI { x: 0, y: 0 },
        "c".to_string(),
        0,
        "z".to_string(),
        Some("eq".to_string()),
    );
    assert_eq!(bare.event_image, None);
    assert_eq!(bare.image_base64(), None);
    assert_eq!(bare.equipment_id, Some("eq".to_string()));
}

#[test]
fn image_base64_rendering() {
    let ev = EventInfo::new(
        0,
        Some(&vec![77u8, 97, 110]),
        "x".to_string(),
        0,
        0,
        EventBBox { x: 0, y: 0, width: 0, height: 0 },
        EventPOI { x: 0, y: 0 },
        "c".to_string(),
        0,
        "z".to_string(),
        None,
    );
    assert_eq!(ev.image_base64(), Some("TWFu".to_string()));
    let empty = EventInfo::new(
        0,
        Some(&vec![]),
        "x".to_string(),
        0,
        0,
        EventBBox { x: 0, y: 0, width: 0, height: 0 },
        EventPOI { x: 0, y: 0 },
        "c".to_string(),
        0,
        "z".to_string(),
        None,
    );
    assert_eq!(empty.image_base64(), Some("".to_string()));
}
