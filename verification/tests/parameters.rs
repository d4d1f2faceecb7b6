use talos::agent::parameters::{
    normalize_node_name, pair_parameters, parameter_set_reply, parameters_unavailable,
    prepare_parameter_request,
};
use talos::protocol::messages::Response;
use talos::protocol::params::{ParamInfo, ParamValue};

#[test]
fn node_names_are_normalized() {
    assert_eq!(normalize_node_name("foo"), Some("/foo".to_string()));
    assert_eq!(normalize_node_name(" /ns/foo// "), Some("/ns/foo".to_string()));
    assert_eq!(normalize_node_name("  "), None);
    assert_eq!(normalize_node_name("///"), None);
}

#[test]
fn parameters_pair_names_with_values() {
    let r = pair_parameters(
        vec!["a".into(), "b".into(), "c".into()],
        vec![ParamValue::Bool(true), ParamValue::Integer(2)],
    );
    assert_eq!(
        r,
        vec![
            ParamInfo { name: "a".into(), value: ParamValue::Bool(true) },
            ParamInfo { name: "b".into(), value: ParamValue::Integer(2) },
        ]
    );
}

#[test]
fn parameter_requests_and_replies() {
    assert_eq!(
        prepare_parameter_request(false, "/n"),
        Err(Response::Error("ROS 2 node not available yet".into()))
    );
    assert_eq!(prepare_parameter_request(true, "n"), Ok("/n".to_string()));
    assert_eq!(
        parameters_unavailable("/n"),
        "parameter services for '/n' are not available"
    );
    assert_eq!(
        parameter_set_reply("/n".into(), "rate".into(), vec![(true, String::new())]),
        Response::ParameterSet {
            node: "/n".into(),
            name: "rate".into(),
            successful: true,
            reason: String::new()
        }
    );
    assert_eq!(
        parameter_set_reply("/n".into(), "rate".into(), vec![]),
        Response::Error("set_parameters returned no result".into())
    );
}
