use talos::cli::{
    find_topic_stats, get_params_outcome, level_label, list_params_outcome, log_level_outcome,
    logger_request, nodes_outcome, parse_logger_level, set_param_outcome, stats_outcome,
    topics_outcome,
};
use talos::protocol::messages::{Request, Response};
use talos::protocol::types::{TopicInfo, TopicStats};

#[test]
fn rejected_set_returns_error() {
    let err = log_level_outcome(Response::LoggerLevelSet {
        node: "/n".into(),
        logger: "n".into(),
        successful: false,
        reason: "bad level".into(),
    })
    .expect_err("rejected set should fail");
    assert_eq!(err.to_string(), "failed to set 'n': bad level");
}

#[test]
fn nodes_error_response_returns_error() {
    let err = nodes_outcome(Response::Error("missing graph".into()))
        .expect_err("node list error response should fail");
    assert_eq!(err.to_string(), "missing graph");
}

#[test]
fn topics_error_response_returns_error() {
    let err = topics_outcome(Response::Error("boom".into()))
        .expect_err("topic list error response should fail");
    assert_eq!(err.to_string(), "boom");
}

#[test]
fn list_params_error_response_returns_error() {
    let err = list_params_outcome(Response::Error("boom".into()))
        .expect_err("list params error response should fail");
    assert_eq!(err.to_string(), "boom");
}

#[test]
fn get_param_error_response_returns_error() {
    let err = get_params_outcome(Response::Error("missing".into()))
        .expect_err("get param error response should fail");
    assert_eq!(err.to_string(), "missing");
}

#[test]
fn replies_of_the_wrong_kind_are_unexpected() {
    assert_eq!(topics_outcome(Response::Done("x".into())), Err("unexpected response".into()));
    assert_eq!(nodes_outcome(Response::TopicList(vec![])), Err("unexpected response".into()));
    assert_eq!(stats_outcome(Response::NodeList(vec![])), Err("unexpected response".into()));
    assert_eq!(log_level_outcome(Response::NodeList(vec![])), Err("unexpected response".into()));
    assert_eq!(set_param_outcome(Response::NodeList(vec![])), Err("unexpected response".into()));
}

#[test]
fn topic_list_is_handed_through() {
    let topics = vec![TopicInfo {
        name: "/odom".into(),
        msg_type: "nav_msgs/msg/Odometry".into(),
        publisher_count: 1,
        subscriber_count: 0,
    }];
    assert_eq!(topics_outcome(Response::TopicList(topics.clone())), Ok(topics));
}

#[test]
fn log_level_texts() {
    assert_eq!(
        log_level_outcome(Response::LoggerLevel { node: "/n".into(), logger: "n".into(), level: 20 }),
        Ok("n: info".into())
    );
    assert_eq!(
        log_level_outcome(Response::LoggerLevel { node: "/n".into(), logger: "n".into(), level: 25 }),
        Ok("n: 25".into())
    );
    assert_eq!(
        log_level_outcome(Response::LoggerLevelSet {
            node: "/n".into(),
            logger: "n".into(),
            successful: true,
            reason: String::new()
        }),
        Ok("set n".into())
    );
    assert_eq!(level_label(0), "unset");
    assert_eq!(level_label(4294967295), "4294967295");
}

#[test]
fn level_names_read_back() {
    for level in [0u32, 10, 20, 30, 40, 50] {
        let name = level_label(level);
        assert_eq!(parse_logger_level(&name), Some(level));
    }
    assert_eq!(parse_logger_level("INFO"), None);
    assert_eq!(
        logger_request("/n".into(), "".into(), Some("warn".into())),
        Ok(Request::SetLoggerLevel { node: "/n".into(), logger: "".into(), level: 30 })
    );
    assert_eq!(
        logger_request("/n".into(), "l".into(), None),
        Ok(Request::GetLoggerLevel { node: "/n".into(), logger: "l".into() })
    );
    assert_eq!(
        logger_request("/n".into(), "".into(), Some("loud".into())),
        Err("unknown level 'loud' (expected unset, debug, info, warn, error or fatal)".into())
    );
}

#[test]
fn parameter_set_texts() {
    assert_eq!(
        set_param_outcome(Response::ParameterSet {
            node: "/n".into(),
            name: "rate".into(),
            successful: true,
            reason: String::new()
        }),
        Ok("set /n rate".into())
    );
    assert_eq!(
        set_param_outcome(Response::ParameterSet {
            node: "/n".into(),
            name: "rate".into(),
            successful: false,
            reason: "read only".into()
        }),
        Err("failed to set 'rate': read only".into())
    );
}

#[test]
fn stats_lookup_by_topic() {
    let stats = vec![
        TopicStats { topic: "/a".into(), rate_hz: 0, bandwidth_bps: 0, latency_ms: None },
        TopicStats { topic: "/b".into(), rate_hz: 1, bandwidth_bps: 0, latency_ms: None },
        TopicStats { topic: "/b".into(), rate_hz: 2, bandwidth_bps: 0, latency_ms: None },
    ];
    assert_eq!(find_topic_stats(&stats, "/b"), Some(1));
    assert_eq!(find_topic_stats(&stats, "/c"), None);
    assert_eq!(stats_outcome(Response::TopicStats(stats.clone())), Ok(stats));
}
