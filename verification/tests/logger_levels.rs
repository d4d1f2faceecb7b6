use talos::agent::logger_levels::{
    logger_level_reply, logger_level_set_reply, prepare_logger_request, resolve_logger, unavailable,
};
use talos::protocol::messages::Response;
use talos::protocol::types::logger_level_name;

#[test]
fn default_logger_follows_node_name() {
    assert_eq!(resolve_logger("/foo", ""), "foo");
    assert_eq!(resolve_logger("/ns/sub/foo", " "), "ns.sub.foo");
    assert_eq!(resolve_logger("/ns/foo", "rclcpp"), "rclcpp");
}

#[test]
fn logger_request_needs_a_node() {
    assert_eq!(
        prepare_logger_request(false, "/n", ""),
        Err(Response::Error("ROS 2 node not available yet".into()))
    );
    assert_eq!(
        prepare_logger_request(true, " / ", ""),
        Err(Response::Error("node name must not be empty".into()))
    );
    assert_eq!(
        prepare_logger_request(true, "ns/foo/", " "),
        Ok(("/ns/foo".to_string(), "ns.foo".to_string()))
    );
}

#[test]
fn logger_replies() {
    assert_eq!(
        logger_level_reply("/n".into(), "n".into(), vec![20, 30]),
        Response::LoggerLevel { node: "/n".into(), logger: "n".into(), level: 20 }
    );
    assert_eq!(
        logger_level_reply("/n".into(), "n".into(), vec![]),
        Response::Error("get_logger_levels returned no level".into())
    );
    assert_eq!(
        logger_level_set_reply("/n".into(), "n".into(), vec![(false, "bad level".into())]),
        Response::LoggerLevelSet {
            node: "/n".into(),
            logger: "n".into(),
            successful: false,
            reason: "bad level".into()
        }
    );
    assert_eq!(
        logger_level_set_reply("/n".into(), "n".into(), vec![]),
        Response::Error("set_logger_levels returned no result".into())
    );
    assert_eq!(
        unavailable("/n"),
        "logger services for '/n' are not available (the node must enable them, e.g. rclcpp NodeOptions().enable_logger_service(true))"
    );
}

#[test]
fn logger_level_names() {
    assert_eq!(logger_level_name(0), Some("unset"));
    assert_eq!(logger_level_name(10), Some("debug"));
    assert_eq!(logger_level_name(50), Some("fatal"));
    assert_eq!(logger_level_name(15), None);
}
