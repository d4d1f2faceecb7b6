use talos::error::Error;
use talos::protocol::types::{JointLimits, JointType};
use talos::urdf::{extract_joints, joints_from, UrdfJoint, UrdfJointKind};

const SAMPLE_URDF: &str = r#"<?xml version="1.0"?>
<robot name="test_robot">
  <link name="base_link"/>
  <link name="shoulder_link"/>
  <link name="elbow_link"/>
  <link name="fixed_link"/>

  <joint name="shoulder_pan" type="revolute">
    <parent link="base_link"/>
    <child link="shoulder_link"/>
    <axis xyz="0 0 1"/>
    <limit lower="-3.14" upper="3.14" effort="100" velocity="1.0"/>
  </joint>

  <joint name="elbow" type="revolute">
    <parent link="shoulder_link"/>
    <child link="elbow_link"/>
    <axis xyz="0 1 0"/>
    <limit lower="-1.57" upper="1.57" effort="50" velocity="0.5"/>
  </joint>

  <joint name="fixed_mount" type="fixed">
    <parent link="base_link"/>
    <child link="fixed_link"/>
  </joint>
</robot>"#;

#[test]
fn extracts_non_fixed_joints() {
    let joints = extract_joints(SAMPLE_URDF).unwrap();
    assert_eq!(joints.len(), 2);
}

#[test]
fn joint_properties() {
    let joints = extract_joints(SAMPLE_URDF).unwrap();
    let shoulder = &joints[0];
    assert_eq!(shoulder.name, "shoulder_pan");
    assert!(matches!(shoulder.joint_type, JointType::Revolute));
    assert_eq!(shoulder.parent_link, "base_link");
    assert_eq!(shoulder.child_link, "shoulder_link");

    let limits = shoulder.limits.as_ref().unwrap();
    assert!((f64::from_bits(limits.lower) - (-3.14)).abs() < f64::EPSILON);
    assert!((f64::from_bits(limits.upper) - 3.14).abs() < f64::EPSILON);
    assert!((f64::from_bits(limits.effort) - 100.0).abs() < f64::EPSILON);
    assert!((f64::from_bits(limits.velocity) - 1.0).abs() < f64::EPSILON);
}

#[test]
fn invalid_urdf() {
    let result = extract_joints("not xml at all");
    assert!(result.is_err());
    match result {
        Err(Error::Urdf(m)) => assert!(m.starts_with("failed to parse URDF: ")),
        other => panic!("unexpected: {other:?}"),
    }
}

fn joint(name: &str, kind: UrdfJointKind, lower: f64, upper: f64, effort: f64) -> UrdfJoint {
    UrdfJoint {
        name: name.into(),
        kind,
        parent: "p".into(),
        child: "c".into(),
        lower: lower.to_bits(),
        upper: upper.to_bits(),
        effort: effort.to_bits(),
        velocity: 2.0f64.to_bits(),
    }
}

#[test]
fn joints_map_types_and_drop_empty_limits() {
    let joints = joints_from(vec![
        joint("a", UrdfJointKind::Spherical, 0.0, -0.0, 0.0),
        joint("b", UrdfJointKind::Fixed, 1.0, 2.0, 3.0),
        joint("c", UrdfJointKind::Continuous, 0.0, 0.0, 5.0),
    ]);
    assert_eq!(joints.len(), 2);
    assert_eq!(joints[0].name, "a");
    assert_eq!(joints[0].joint_type, JointType::Revolute);
    assert_eq!(joints[0].limits, None);
    assert_eq!(joints[1].name, "c");
    assert_eq!(joints[1].joint_type, JointType::Continuous);
    assert_eq!(
        joints[1].limits,
        Some(JointLimits {
            lower: 0.0f64.to_bits(),
            upper: 0.0f64.to_bits(),
            effort: 5.0f64.to_bits(),
            velocity: 2.0f64.to_bits(),
        })
    );
}
