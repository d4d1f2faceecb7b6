use talos::protocol::types::TopicStats;
use talos::sort::sort_by_key;
use talos::agent::graph::{
    configured_topics, format_type_names, graph_names_for_node, list_nodes_response,
    list_topics_response, topic_endpoints_response, GraphNode, GraphTopic,
};
use talos::config::{AgentConfig, QosProfile, SubscriptionConfig};
use talos::protocol::messages::Response;
use talos::protocol::types::{Durability, EndpointInfo, History, QosInfo, Reliability};

#[test]
fn format_type_names_joins_multiple_types() {
    assert_eq!(
        format_type_names(vec!["type/A".into(), "type/B".into()]),
        "type/A, type/B"
    );
    assert_eq!(format_type_names(vec![]), "");
}

#[test]
fn configured_topics_are_sorted_by_name() {
    let mut config = AgentConfig::default();
    config.subscriptions = vec![
        SubscriptionConfig {
            topic: "/z".into(),
            msg_type: "z_msgs/msg/Z".into(),
            qos: QosProfile::Default,
        },
        SubscriptionConfig {
            topic: "/a".into(),
            msg_type: "a_msgs/msg/A".into(),
            qos: QosProfile::SensorData,
        },
    ];

    let topics = configured_topics(&config);

    assert_eq!(
        topics
            .iter()
            .map(|topic| topic.name.as_str())
            .collect::<Vec<_>>(),
        vec!["/a", "/z"]
    );
    assert_eq!(topics[0].msg_type, "a_msgs/msg/A");
    assert_eq!(topics[0].publisher_count, 0);
    assert_eq!(topics[0].subscriber_count, 0);
}

#[test]
fn graph_names_are_sorted_and_errors_give_none() {
    assert_eq!(
        graph_names_for_node(Ok(vec!["/z".into(), "/a".into()])),
        vec!["/a".to_string(), "/z".to_string()]
    );
    assert!(graph_names_for_node(Err("graph down".into())).is_empty());
}

#[test]
fn list_topics_uses_graph_sorted_by_name() {
    let config = AgentConfig::default();
    let graph = vec![
        GraphTopic {
            name: "/scan".into(),
            types: vec!["sensor_msgs/msg/LaserScan".into()],
            publishers: Some(1),
            subscribers: None,
        },
        GraphTopic {
            name: "/odom".into(),
            types: vec!["a/A".into(), "b/B".into()],
            publishers: Some(2),
            subscribers: Some(3),
        },
    ];
    match list_topics_response(Some(Ok(graph)), &config) {
        Response::TopicList(list) => {
            assert_eq!(list.len(), 2);
            assert_eq!(list[0].name, "/odom");
            assert_eq!(list[0].msg_type, "a/A, b/B");
            assert_eq!(list[0].publisher_count, 2);
            assert_eq!(list[0].subscriber_count, 3);
            assert_eq!(list[1].name, "/scan");
            assert_eq!(list[1].subscriber_count, 0);
        }
        other => panic!("unexpected: {other:?}"),
    }
}

#[test]
fn list_topics_without_graph_falls_back_to_configuration() {
    let mut config = AgentConfig::default();
    config.subscriptions = vec![SubscriptionConfig {
        topic: "/odom".into(),
        msg_type: "nav_msgs/msg/Odometry".into(),
        qos: QosProfile::Default,
    }];
    for graph in [None, Some(Err("query failed".to_string()))] {
        match list_topics_response(graph, &config) {
            Response::TopicList(list) => {
                assert_eq!(list.len(), 1);
                assert_eq!(list[0].name, "/odom");
                assert_eq!(list[0].msg_type, "nav_msgs/msg/Odometry");
            }
            other => panic!("unexpected: {other:?}"),
        }
    }
}

#[test]
fn list_nodes_sorted_with_sorted_names() {
    let nodes = vec![
        GraphNode {
            name: "b".into(),
            namespace: "/".into(),
            publishers: Ok(vec!["/z".into(), "/a".into()]),
            subscribers: Err("x".into()),
            services: Ok(vec![]),
        },
        GraphNode {
            name: "a".into(),
            namespace: "/".into(),
            publishers: Ok(vec![]),
            subscribers: Ok(vec![]),
            services: Ok(vec![]),
        },
    ];
    match list_nodes_response(Some(Ok(nodes))) {
        Response::NodeList(list) => {
            assert_eq!(list.len(), 2);
            assert_eq!(list[0].name, "a");
            assert_eq!(list[1].name, "b");
            assert_eq!(list[1].publishers, vec!["/a".to_string(), "/z".to_string()]);
            assert!(list[1].subscribers.is_empty());
        }
        other => panic!("unexpected: {other:?}"),
    }
}

fn endpoint(node: &str) -> EndpointInfo {
    EndpointInfo {
        node_name: node.into(),
        node_namespace: "/".into(),
        topic_type: "std_msgs/msg/String".into(),
        qos: QosInfo {
            reliability: Reliability::Reliable,
            durability: Durability::Volatile,
            history: History::KeepLast { depth: 10 },
            deadline_ms: None,
        },
    }
}

#[test]
fn topic_endpoints_reply_and_errors() {
    match topic_endpoints_response("/chatter", Some((Ok(vec![endpoint("talker")]), Ok(vec![])))) {
        Response::TopicEndpoints { topic, publishers, subscribers } => {
            assert_eq!(topic, "/chatter");
            assert_eq!(publishers, vec![endpoint("talker")]);
            assert!(subscribers.is_empty());
        }
        other => panic!("unexpected: {other:?}"),
    }
    assert_eq!(
        topic_endpoints_response("/chatter", None),
        Response::Error("ROS 2 node not available yet".into())
    );
    assert_eq!(
        topic_endpoints_response("/chatter", Some((Ok(vec![]), Err("boom".into())))),
        Response::Error("failed to query endpoints of '/chatter': boom".into())
    );
    assert_eq!(
        topic_endpoints_response("/c", Some((Err("first".into()), Err("second".into())))),
        Response::Error("failed to query endpoints of '/c': first".into())
    );
}

#[test]
fn topic_stats_sort_by_topic() {
    let stat = |t: &str| TopicStats { topic: t.to_string(), rate_hz: 0, bandwidth_bps: 0, latency_ms: None };
    let sorted = sort_by_key(vec![stat("/scan"), stat("/imu"), stat("/odom")]);
    let names: Vec<&str> = sorted.iter().map(|s| s.topic.as_str()).collect();
    assert_eq!(names, vec!["/imu", "/odom", "/scan"]);
}
