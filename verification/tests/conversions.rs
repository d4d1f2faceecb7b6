use talos::agent::conversions::{
    imu_to_dynvalue, joint_state_to_dynvalue, laser_scan_to_dynvalue, log_to_dynvalue,
    message_type_entry, odometry_to_dynvalue, param_value_from_ros, param_value_to_ros,
    pose_stamped_to_dynvalue, string_to_dynvalue, supported_message_types, timestamp_from_builtin,
    twist_msg_to_dynvalue, MessageKind,
};
use talos::agent::ros_msgs::{
    Header, Imu, JointState, LaserScan, Log, Odometry, Point, Pose, PoseStamped,
    PoseWithCovariance, Quaternion, RosParameterValue, StringMsg, Time, Twist,
    TwistWithCovariance, Vector3,
};
use talos::protocol::params::ParamValue;
use talos::protocol::types::{DynValue, Timestamp};

fn field_names(dv: &DynValue) -> Vec<&str> {
    match dv {
        DynValue::Struct { fields, .. } => fields.iter().map(|(k, _)| k.as_str()).collect(),
        _ => panic!("expected DynValue::Struct"),
    }
}

fn field<'a>(dv: &'a DynValue, name: &str) -> &'a DynValue {
    match dv {
        DynValue::Struct { fields, .. } => {
            &fields.iter().find(|(k, _)| k == name).expect("field not found").1
        }
        _ => panic!("expected DynValue::Struct"),
    }
}

fn array_len(dv: &DynValue, name: &str) -> usize {
    match field(dv, name) {
        DynValue::Array(a) => a.len(),
        _ => panic!("field {name} is not an Array"),
    }
}

fn header() -> Header {
    Header { stamp: Time { sec: 0, nanosec: 0 }, frame_id: String::new() }
}

const ZERO3: Vector3 = Vector3 { x: 0, y: 0, z: 0 };
const ZERO_Q: Quaternion = Quaternion { x: 0, y: 0, z: 0, w: 0 };
const ZERO_POSE: Pose = Pose { position: Point { x: 0, y: 0, z: 0 }, orientation: ZERO_Q };

fn bits(v: &[f64]) -> Vec<u64> {
    v.iter().map(|x| x.to_bits()).collect()
}

#[test]
fn laser_scan_field_names_and_range_length() {
    let msg = LaserScan {
        header: header(),
        angle_min: 0,
        angle_max: 0,
        angle_increment: 0,
        time_increment: 0,
        scan_time: 0,
        range_min: 0,
        range_max: 0,
        ranges: bits(&[1.0f32 as f64, 2.0f32 as f64, 3.0f32 as f64]),
        intensities: bits(&[0.1f32 as f64, 0.2f32 as f64, 0.3f32 as f64]),
    };
    let dv = laser_scan_to_dynvalue(&msg);
    let names = field_names(&dv);
    assert_eq!(
        names,
        &[
            "header",
            "angle_min",
            "angle_max",
            "angle_increment",
            "time_increment",
            "scan_time",
            "range_min",
            "range_max",
            "ranges",
            "intensities"
        ]
    );
    assert_eq!(array_len(&dv, "ranges"), 3);
    assert_eq!(array_len(&dv, "intensities"), 3);
}

#[test]
fn imu_field_names_and_covariance_lengths() {
    let msg = Imu {
        header: header(),
        orientation: ZERO_Q,
        orientation_covariance: [0; 9],
        angular_velocity: ZERO3,
        angular_velocity_covariance: [0; 9],
        linear_acceleration: ZERO3,
        linear_acceleration_covariance: [0; 9],
    };
    let dv = imu_to_dynvalue(&msg);
    let names = field_names(&dv);
    assert_eq!(
        names,
        &[
            "header",
            "orientation",
            "orientation_covariance",
            "angular_velocity",
            "angular_velocity_covariance",
            "linear_acceleration",
            "linear_acceleration_covariance"
        ]
    );
    assert_eq!(array_len(&dv, "orientation_covariance"), 9);
    assert_eq!(array_len(&dv, "angular_velocity_covariance"), 9);
    assert_eq!(array_len(&dv, "linear_acceleration_covariance"), 9);
}

#[test]
fn pose_stamped_field_names() {
    let msg = PoseStamped { header: header(), pose: ZERO_POSE };
    let dv = pose_stamped_to_dynvalue(&msg);
    let names = field_names(&dv);
    assert_eq!(names, &["header", "pose"]);
}

#[test]
fn supported_message_registry_lists_current_types_once() {
    let supported = supported_message_types();
    assert_eq!(
        supported,
        &[
            "nav_msgs/msg/Odometry",
            "geometry_msgs/msg/Twist",
            "std_msgs/msg/String",
            "sensor_msgs/msg/JointState",
            "sensor_msgs/msg/LaserScan",
            "sensor_msgs/msg/Imu",
            "geometry_msgs/msg/PoseStamped",
            "rcl_interfaces/msg/Log",
        ]
    );

    let mut sorted = supported.to_vec();
    sorted.sort_unstable();
    sorted.dedup();
    assert_eq!(sorted.len(), supported.len());

    for msg_type in &supported {
        assert!(message_type_entry(msg_type).is_some());
    }
    assert!(message_type_entry("geometry_msgs/msg/Pose").is_none());
}

#[test]
fn registry_entries_carry_their_msg_types() {
    for msg_type in supported_message_types() {
        let kind = message_type_entry(msg_type).unwrap();
        assert_eq!(kind.msg_type(), msg_type);
    }
    assert_eq!(message_type_entry("sensor_msgs/msg/Imu"), Some(MessageKind::Imu));
}

#[test]
fn odometry_tree() {
    let msg = Odometry {
        header: Header { stamp: Time { sec: 7, nanosec: 9 }, frame_id: "odom".into() },
        child_frame_id: "base".into(),
        pose: PoseWithCovariance { pose: ZERO_POSE, covariance: [0; 36] },
        twist: TwistWithCovariance {
            twist: Twist { linear: Vector3 { x: 1.5f64.to_bits(), y: 0, z: 0 }, angular: ZERO3 },
            covariance: [0; 36],
        },
    };
    let dv = odometry_to_dynvalue(&msg);
    assert_eq!(field_names(&dv), &["header", "child_frame_id", "pose", "twist"]);
    assert_eq!(field(&dv, "child_frame_id"), &DynValue::String("base".into()));
    let h = field(&dv, "header");
    assert_eq!(field(h, "frame_id"), &DynValue::String("odom".into()));
    assert_eq!(field(field(h, "stamp"), "sec"), &DynValue::I32(7));
    assert_eq!(field(field(h, "stamp"), "nanosec"), &DynValue::U32(9));
    assert_eq!(array_len(field(&dv, "pose"), "covariance"), 36);
    let twist = field(field(&dv, "twist"), "twist");
    assert_eq!(field(field(twist, "linear"), "x"), &DynValue::F64(1.5f64.to_bits()));
    match &dv {
        DynValue::Struct { struct_type, .. } => assert_eq!(struct_type, "Odometry"),
        _ => panic!("expected a struct"),
    }
}

#[test]
fn joint_state_string_and_twist_trees() {
    let msg = JointState {
        header: header(),
        name: vec!["a".into(), "b".into()],
        position: bits(&[1.0, 2.0]),
        velocity: vec![],
        effort: bits(&[3.0]),
    };
    let dv = joint_state_to_dynvalue(&msg);
    assert_eq!(field_names(&dv), &["header", "name", "position", "velocity", "effort"]);
    assert_eq!(
        field(&dv, "name"),
        &DynValue::Array(vec![DynValue::String("a".into()), DynValue::String("b".into())])
    );
    assert_eq!(array_len(&dv, "velocity"), 0);
    assert_eq!(
        string_to_dynvalue(&StringMsg { data: "hi".into() }),
        DynValue::String("hi".into())
    );
    let t = twist_msg_to_dynvalue(&Twist { linear: ZERO3, angular: ZERO3 });
    assert_eq!(field_names(&t), &["linear", "angular"]);
}

#[test]
fn log_levels_are_named() {
    let mut msg = Log {
        stamp: Time { sec: 1, nanosec: 2 },
        level: 40,
        name: "n".into(),
        msg: "m".into(),
        file: "f".into(),
        function: "g".into(),
        line: 12,
    };
    let dv = log_to_dynvalue(&msg);
    assert_eq!(field_names(&dv), &["stamp", "level", "name", "msg", "file", "function", "line"]);
    assert_eq!(field(&dv, "level"), &DynValue::String("ERROR".into()));
    assert_eq!(field(&dv, "line"), &DynValue::U32(12));
    msg.level = 7;
    assert_eq!(field(&log_to_dynvalue(&msg), "level"), &DynValue::String("UNKNOWN".into()));
    assert_eq!(
        timestamp_from_builtin(&Time { sec: -1, nanosec: 5 }),
        Timestamp { sec: -1, nanosec: 5 }
    );
}

#[test]
fn parameter_values_round_trip_through_ros() {
    for value in [
        ParamValue::NotSet,
        ParamValue::Bool(true),
        ParamValue::Integer(-42),
        ParamValue::Double(3.5f64.to_bits()),
        ParamValue::String("hello".into()),
        ParamValue::ByteArray(vec![1, 2, 3]),
        ParamValue::BoolArray(vec![true, false]),
        ParamValue::IntegerArray(vec![1, 2, 3]),
        ParamValue::DoubleArray(vec![1.0f64.to_bits(), 2.5f64.to_bits()]),
        ParamValue::StringArray(vec!["a".into(), "b".into()]),
    ] {
        assert_eq!(param_value_from_ros(&param_value_to_ros(&value)), value);
    }
    let msg = param_value_to_ros(&ParamValue::Integer(5));
    assert_eq!(msg.kind, 2);
    assert_eq!(msg.integer_value, 5);
    assert!(!msg.bool_value);
    assert!(msg.string_array_value.is_empty());
    let unknown = RosParameterValue { kind: 42, ..msg };
    assert_eq!(param_value_from_ros(&unknown), ParamValue::NotSet);
}
