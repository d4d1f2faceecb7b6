use talos::error::Error;
use talos::protocol::messages::{Request, Response};
use talos::protocol::types::{DynValue, Timestamp, TopicSub};
use talos::session::client::{
    subscribe_outcome, subscribe_request, unsubscribe_outcome, unsubscribe_request, RequestFailure,
    StreamDemux,
};
use talos::session::server::ProtocolSession;

fn data(topic: &str, v: bool) -> Response {
    Response::TopicData {
        topic: topic.into(),
        msg_type: "t".into(),
        stamp: Timestamp { sec: 1, nanosec: 0 },
        data: DynValue::Bool(v),
    }
}

#[test]
fn protocol_session_tracks_subscriptions() {
    let mut s = ProtocolSession::new();
    assert!(!s.is_subscribed("/odom"));
    s.subscribe(vec!["/odom".into(), "/scan".into(), "/odom".into()]);
    assert!(s.is_subscribed("/odom"));
    let mut subs = s.subscriptions();
    subs.sort();
    assert_eq!(subs, vec!["/odom".to_string(), "/scan".to_string()]);
    s.unsubscribe(&["/odom".to_string(), "/tf".to_string()]);
    assert!(!s.is_subscribed("/odom"));
    assert!(s.is_subscribed("/scan"));
    assert_eq!(ProtocolSession::default().subscriptions().len(), 0);
}

#[test]
fn data_before_confirmation_is_kept() {
    let mut demux = StreamDemux::new();
    let topics = vec!["/odom".to_string()];
    demux.begin_subscribe(&topics);
    assert!(demux.on_control_frame(data("/odom", true)).is_none());
    assert!(demux.on_control_frame(data("/other", true)).is_none());
    let confirmed = vec![TopicSub { topic: "/odom".into(), msg_type: "nav_msgs/msg/Odometry".into() }];
    let reply = demux.on_control_frame(Response::Subscribed { topics: confirmed.clone() }).unwrap();
    let subs = demux.finish_subscribe(&topics, Ok(reply)).unwrap();
    assert_eq!(subs, confirmed);
    assert!(demux.is_subscribed("/odom"));
    let (topic, frame) = demux.next_buffered().unwrap();
    assert_eq!(topic, "/odom");
    assert_eq!(frame.data, DynValue::Bool(true));
    assert!(demux.next_buffered().is_none());
}

#[test]
fn buffered_data_comes_out_oldest_first() {
    let mut demux = StreamDemux::new();
    demux.begin_subscribe(&vec!["/a".into()]);
    demux.on_control_frame(data("/a", true));
    demux.on_control_frame(data("/a", false));
    assert_eq!(demux.next_buffered().unwrap().1.data, DynValue::Bool(true));
    assert_eq!(demux.next_buffered().unwrap().1.data, DynValue::Bool(false));
}

#[test]
fn failed_subscriptions_roll_back() {
    let mut demux = StreamDemux::new();
    let topics = vec!["/odom".to_string()];
    demux.begin_subscribe(&topics);
    match demux.finish_subscribe(&topics, Ok(Response::Error("no".into()))) {
        Err(RequestFailure::Failed(Error::Config(m))) => assert_eq!(m, "subscribe error: no"),
        other => panic!("unexpected: {other:?}"),
    }
    assert!(!demux.is_subscribed("/odom"));
    demux.begin_subscribe(&topics);
    match demux.finish_subscribe(&topics, Err(Error::Io("closed".into()))) {
        Err(RequestFailure::Failed(Error::Io(m))) => assert_eq!(m, "closed"),
        other => panic!("unexpected: {other:?}"),
    }
    demux.begin_subscribe(&topics);
    match demux.finish_subscribe(&topics, Ok(Response::Done("x".into()))) {
        Err(RequestFailure::Unexpected(Response::Done(m))) => assert_eq!(m, "x"),
        other => panic!("unexpected: {other:?}"),
    }
    assert!(!demux.is_subscribed("/odom"));
}

#[test]
fn control_replies_pass_and_data_is_filtered() {
    let mut demux = StreamDemux::new();
    assert_eq!(demux.on_control_frame(Response::Done("ok".into())), Some(Response::Done("ok".into())));
    assert!(demux.on_data_frame(data("/a", true)).is_none());
    demux.begin_subscribe(&vec!["/a".into()]);
    let (t, _) = demux.on_data_frame(data("/a", true)).unwrap();
    assert_eq!(t, "/a");
    assert!(demux.on_data_frame(Response::Done("late".into())).is_none());
}

#[test]
fn unsubscribe_outcomes() {
    let mut demux = StreamDemux::new();
    demux.begin_subscribe(&vec!["/a".into(), "/b".into()]);
    assert_eq!(
        demux.finish_unsubscribe(Response::Unsubscribed { topics: vec!["/a".into()] }).unwrap(),
        vec!["/a".to_string()]
    );
    assert!(!demux.is_subscribed("/a"));
    assert!(demux.is_subscribed("/b"));
    match demux.finish_unsubscribe(Response::Error("nope".into())) {
        Err(RequestFailure::Failed(Error::Config(m))) => assert_eq!(m, "unsubscribe error: nope"),
        other => panic!("unexpected: {other:?}"),
    }
    assert!(demux.is_subscribed("/b"));
    match unsubscribe_outcome(Response::TopicList(vec![])) {
        Err(RequestFailure::Unexpected(Response::TopicList(l))) => assert!(l.is_empty()),
        other => panic!("unexpected: {other:?}"),
    }
    match subscribe_outcome(Response::Error("bad".into())) {
        Err(RequestFailure::Failed(Error::Config(m))) => assert_eq!(m, "subscribe error: bad"),
        other => panic!("unexpected: {other:?}"),
    }
    assert_eq!(
        subscribe_request(&vec!["/x".into()]),
        Request::Subscribe { topics: vec!["/x".into()] }
    );
    assert_eq!(
        unsubscribe_request(&vec!["/x".into()]),
        Request::Unsubscribe { topics: vec!["/x".into()] }
    );
}
