use talos::agent::dynamic::{extract_stamp, field_of};
use talos::agent::streams::DataStreams;
use talos::protocol::messages::{topic_frame_of, Response};
use talos::protocol::types::{DynValue, Timestamp};

#[test]
fn one_stream_per_topic() {
    let mut streams: DataStreams<u32> = DataStreams::new();
    assert!(!streams.contains("/a"));
    assert_eq!(streams.insert("/a".into(), 1), None);
    assert_eq!(streams.insert("/b".into(), 2), None);
    assert_eq!(streams.insert("/a".into(), 3), Some(1));
    assert!(streams.contains("/a"));
    assert_eq!(streams.remove("/a"), Some(3));
    assert_eq!(streams.remove("/a"), None);
    assert!(!streams.contains("/a"));
}

#[test]
fn removing_several_topics_hands_back_their_streams_in_order() {
    let mut streams: DataStreams<u32> = DataStreams::new();
    streams.insert("/a".into(), 1);
    streams.insert("/b".into(), 2);
    streams.insert("/c".into(), 3);
    let gone = streams.remove_all(&vec!["/c".into(), "/x".into(), "/a".into(), "/c".into()]);
    assert_eq!(gone, vec![3, 1]);
    assert!(streams.contains("/b"));
    assert!(!streams.contains("/c"));
    let mut rest = streams.into_streams();
    rest.sort();
    assert_eq!(rest, vec![2]);
}

#[test]
fn topic_data_splits_into_frames() {
    let r = Response::TopicData {
        topic: "/a".into(),
        msg_type: "t".into(),
        stamp: Timestamp { sec: 3, nanosec: 4 },
        data: DynValue::U8(1),
    };
    let (topic, frame) = topic_frame_of(r).unwrap();
    assert_eq!(topic, "/a");
    assert_eq!(frame.stamp, Timestamp { sec: 3, nanosec: 4 });
    assert_eq!(frame.data, DynValue::U8(1));
    assert_eq!(topic_frame_of(Response::Done("x".into())).unwrap_err(), Response::Done("x".into()));
}

fn time(sec: i32, nanosec: u32) -> DynValue {
    DynValue::Struct {
        struct_type: "Time".into(),
        fields: vec![("sec".into(), DynValue::I32(sec)), ("nanosec".into(), DynValue::U32(nanosec))],
    }
}

#[test]
fn stamps_come_from_the_header_then_the_top_level() {
    let with_header = DynValue::Struct {
        struct_type: "M".into(),
        fields: vec![
            ("header".into(), DynValue::Struct {
                struct_type: "Header".into(),
                fields: vec![("stamp".into(), time(5, 6))],
            }),
            ("stamp".into(), time(1, 2)),
        ],
    };
    assert_eq!(extract_stamp(&with_header), Some(Timestamp { sec: 5, nanosec: 6 }));
    let top = DynValue::Struct {
        struct_type: "M".into(),
        fields: vec![("header".into(), DynValue::I32(0)), ("stamp".into(), time(1, 2))],
    };
    assert_eq!(extract_stamp(&top), Some(Timestamp { sec: 1, nanosec: 2 }));
    let wrong = DynValue::Struct {
        struct_type: "M".into(),
        fields: vec![("stamp".into(), DynValue::Struct {
            struct_type: "Time".into(),
            fields: vec![("sec".into(), DynValue::I64(1)), ("nanosec".into(), DynValue::U32(0))],
        })],
    };
    assert_eq!(extract_stamp(&wrong), None);
    assert_eq!(extract_stamp(&DynValue::Bool(true)), None);
    assert_eq!(field_of(&top, "stamp"), Some(&time(1, 2)));
    assert_eq!(field_of(&top, "none"), None);
}
