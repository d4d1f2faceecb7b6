use talos::agent::requests::{confirm_subscriptions, handle_request, plan_control_request};
use talos::agent::router::{approx_payload_size, checked_payload_size, TopicRouter, CLIENT_QUEUE_CAPACITY};
use talos::agent::control::ControlAction;
use talos::config::{AgentConfig, QosProfile, SubscriptionConfig};
use talos::protocol::messages::{Request, Response};
use talos::protocol::params::ParamValue;
use talos::protocol::types::{DynValue, Timestamp, TopicSub};

fn data(topic: &str, data: DynValue) -> Response {
    Response::TopicData {
        topic: topic.into(),
        msg_type: "t".into(),
        stamp: Timestamp { sec: 0, nanosec: 0 },
        data,
    }
}

#[test]
fn subscribers_receive_only_their_topics() {
    let mut router = TopicRouter::new();
    let a = router.register();
    let b = router.register();
    assert_ne!(a, b);
    router.subscribe(a, vec!["/odom".into()]);
    router.subscribe(b, vec!["/odom".into(), "/scan".into()]);
    let mut to = router.route(&data("/odom", DynValue::Bool(true)));
    to.sort();
    assert_eq!(to, vec![a, b]);
    assert_eq!(router.route(&data("/scan", DynValue::Bool(true))), vec![b]);
    assert!(router.route(&data("/tf", DynValue::Bool(true))).is_empty());
    assert!(router.route(&Response::Done("x".into())).is_empty());
}

#[test]
fn unsubscribe_and_deregister_stop_delivery() {
    let mut router = TopicRouter::new();
    let a = router.register();
    let b = router.register();
    router.subscribe(a, vec!["/odom".into()]);
    router.subscribe(b, vec!["/odom".into()]);
    router.unsubscribe(a, &["/odom".to_string()]);
    assert_eq!(router.route(&data("/odom", DynValue::Bool(true))), vec![b]);
    router.deregister(b);
    assert!(router.route(&data("/odom", DynValue::Bool(true))).is_empty());
    // Unknown clients change nothing.
    router.subscribe(99, vec!["/odom".into()]);
    assert!(router.route(&data("/odom", DynValue::Bool(true))).is_empty());
}

#[test]
fn windows_count_messages_and_bytes() {
    let mut router = TopicRouter::new();
    for _ in 0..20 {
        assert!(router.can_route(&data("/scan", DynValue::Bytes(vec![0; 100]))));
        router.route(&data("/scan", DynValue::Bytes(vec![0; 100])));
    }
    router.route(&data("/imu", DynValue::Bool(true)));
    let mut counts = router.close_window();
    counts.sort_by(|x, y| x.topic.cmp(&y.topic));
    assert_eq!(counts.len(), 2);
    assert_eq!((counts[0].topic.as_str(), counts[0].msgs, counts[0].bytes), ("/imu", 1, 1));
    assert_eq!((counts[1].topic.as_str(), counts[1].msgs, counts[1].bytes), ("/scan", 20, 2000));
    let again = router.close_window();
    assert!(again.iter().all(|w| w.msgs == 0 && w.bytes == 0));
    assert_eq!(again.len(), 2);
}

#[test]
fn payload_sizes() {
    let v = DynValue::Struct {
        struct_type: "T".into(),
        fields: vec![
            ("a".into(), DynValue::F64(0)),
            ("b".into(), DynValue::String("héllo".into())),
            ("c".into(), DynValue::Array(vec![DynValue::U16(1), DynValue::I8(2), DynValue::F32(0)])),
        ],
    };
    assert_eq!(approx_payload_size(&v), 8 + 6 + 2 + 1 + 4);
    assert_eq!(checked_payload_size(&v), Some(21));
    assert_eq!(CLIENT_QUEUE_CAPACITY, 1024);
}

fn config() -> AgentConfig {
    let mut config = AgentConfig::default();
    config.subscriptions = vec![
        SubscriptionConfig { topic: "/odom".into(), msg_type: "nav_msgs/msg/Odometry".into(), qos: QosProfile::Default },
        SubscriptionConfig { topic: "/odom".into(), msg_type: "other/Type".into(), qos: QosProfile::Default },
        SubscriptionConfig { topic: "/scan".into(), msg_type: "sensor_msgs/msg/LaserScan".into(), qos: QosProfile::SensorData },
    ];
    config
}

#[test]
fn subscribe_requests_confirm_configured_topics() {
    let config = config();
    assert_eq!(
        confirm_subscriptions(&config, &vec!["/scan".into(), "/nope".into(), "/odom".into()]),
        vec![
            TopicSub { topic: "/scan".into(), msg_type: "sensor_msgs/msg/LaserScan".into() },
            TopicSub { topic: "/odom".into(), msg_type: "nav_msgs/msg/Odometry".into() },
        ]
    );
    let mut router = TopicRouter::new();
    let id = router.register();
    match handle_request(&Request::Subscribe { topics: vec!["/nope".into(), "/odom".into()] }, &config, &mut router, id) {
        ControlAction::Reply(Response::Subscribed { topics }) => {
            assert_eq!(topics, vec![TopicSub { topic: "/odom".into(), msg_type: "nav_msgs/msg/Odometry".into() }]);
        }
        _ => panic!("expected a subscribe confirmation"),
    }
    // Every requested topic is recorded, configured or not.
    assert_eq!(router.route(&data("/nope", DynValue::Bool(true))), vec![id]);
    match handle_request(&Request::Unsubscribe { topics: vec!["/nope".into()] }, &config, &mut router, id) {
        ControlAction::Reply(Response::Unsubscribed { topics }) => assert_eq!(topics, vec!["/nope".to_string()]),
        _ => panic!("expected an unsubscribe confirmation"),
    }
    assert!(router.route(&data("/nope", DynValue::Bool(true))).is_empty());
    assert_eq!(router.route(&data("/odom", DynValue::Bool(true))), vec![id]);
}

#[test]
fn control_requests_are_planned() {
    let config = config();
    assert!(matches!(plan_control_request(&Request::ListTopics, &config), ControlAction::QueryTopics));
    assert!(matches!(plan_control_request(&Request::ListNodes, &config), ControlAction::QueryNodes));
    match plan_control_request(&Request::ListPoses, &config) {
        ControlAction::Reply(Response::PoseList(p)) => assert!(p.is_empty()),
        _ => panic!("expected the pose list"),
    }
    assert!(matches!(plan_control_request(&Request::GetTopicStats, &config), ControlAction::ReportTopicStats));
    match plan_control_request(&Request::SetParameter { node: "/n".into(), name: "rate".into(), value: ParamValue::Integer(10) }, &config) {
        ControlAction::SetParameter { node, name, value } => {
            assert_eq!((node.as_str(), name.as_str()), ("/n", "rate"));
            assert_eq!(value, ParamValue::Integer(10));
        }
        _ => panic!("expected a parameter call"),
    }
    match plan_control_request(&Request::SetLoggerLevel { node: "/n".into(), logger: "".into(), level: 10 }, &config) {
        ControlAction::SetLoggerLevel { node, logger, level } => {
            assert_eq!((node.as_str(), logger.as_str(), level), ("/n", "", 10));
        }
        _ => panic!("expected a logger call"),
    }
    match plan_control_request(&Request::Subscribe { topics: vec![] }, &config) {
        ControlAction::Reply(r) => assert_eq!(r, Response::Error("unexpected request".into())),
        _ => panic!("expected an error reply"),
    }
}
