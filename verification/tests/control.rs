use talos::agent::control::{
    configured_poses, joint_publish_reply, plan_execute_pose, plan_set_joint_position,
    ControlAction,
};
use talos::config::{AgentConfig, ControlConfig, ControlMethod};
use talos::protocol::messages::Response;

fn pose_config() -> AgentConfig {
    let mut config = AgentConfig::default();
    config.poses = vec![
        (
            "stand".into(),
            vec![("knee".into(), 0.5f64.to_bits()), ("ankle".into(), (-0.25f64).to_bits())],
        ),
        (
            "home".into(),
            vec![("shoulder".into(), 1.0f64.to_bits()), ("elbow".into(), 0.0f64.to_bits())],
        ),
    ];
    config
}

#[test]
fn configured_poses_are_sorted_by_pose_and_joint_name() {
    let config = pose_config();

    let poses = configured_poses(&config);

    assert_eq!(
        poses
            .iter()
            .map(|pose| pose.name.as_str())
            .collect::<Vec<_>>(),
        vec!["home", "stand"]
    );
    assert_eq!(
        poses[0]
            .positions
            .iter()
            .map(|(joint, position)| (joint.as_str(), f64::from_bits(*position)))
            .collect::<Vec<_>>(),
        vec![("elbow", 0.0), ("shoulder", 1.0)]
    );
    assert_eq!(
        poses[1]
            .positions
            .iter()
            .map(|(joint, position)| (joint.as_str(), f64::from_bits(*position)))
            .collect::<Vec<_>>(),
        vec![("ankle", -0.25), ("knee", 0.5)]
    );
}

fn with_control(mut config: AgentConfig) -> AgentConfig {
    config.control = Some(ControlConfig {
        method: ControlMethod::Topic,
        topic: "/joint_commands".into(),
        msg_type: "sensor_msgs/msg/JointState".into(),
    });
    config
}

#[test]
fn joint_commands_need_control() {
    let config = pose_config();
    match plan_set_joint_position(&config, "elbow", 1.0f64.to_bits()) {
        ControlAction::Reply(r) => assert_eq!(r, Response::Error("control not configured".into())),
        _ => panic!("expected a reply"),
    }
    match plan_execute_pose(&config, "home") {
        ControlAction::Reply(r) => assert_eq!(r, Response::Error("control not configured".into())),
        _ => panic!("expected a reply"),
    }
}

#[test]
fn joint_commands_publish_joint_states() {
    let config = with_control(pose_config());
    match plan_set_joint_position(&config, "elbow", 1.5f64.to_bits()) {
        ControlAction::PublishJoints { names, positions, done } => {
            assert_eq!(names, vec!["elbow".to_string()]);
            assert_eq!(positions, vec![1.5f64.to_bits()]);
            assert_eq!(done, "joint command published");
        }
        _ => panic!("expected a joint state"),
    }
    match plan_execute_pose(&config, "stand") {
        ControlAction::PublishJoints { names, positions, done } => {
            assert_eq!(names, vec!["knee".to_string(), "ankle".to_string()]);
            assert_eq!(positions, vec![0.5f64.to_bits(), (-0.25f64).to_bits()]);
            assert_eq!(done, "pose 'stand' published");
        }
        _ => panic!("expected a joint state"),
    }
    match plan_execute_pose(&config, "sit") {
        ControlAction::Reply(r) => assert_eq!(r, Response::Error("unknown pose: sit".into())),
        _ => panic!("expected a reply"),
    }
}

#[test]
fn publish_outcomes() {
    assert_eq!(
        joint_publish_reply(None, "done".into()),
        Response::Error("joint publisher not ready".into())
    );
    assert_eq!(joint_publish_reply(Some(Ok(())), "done".into()), Response::Done("done".into()));
    assert_eq!(
        joint_publish_reply(Some(Err("no peers".into())), "done".into()),
        Response::Error("publish failed: no peers".into())
    );
}
