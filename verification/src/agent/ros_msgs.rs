//! The ROS 2 messages the agent bridges, as plain values: every `f64` is its
//! bit pattern, and the `f32` fields of a laser scan are held widened to
//! `f64` (`as f64`, which is exact).
use vstd::prelude::*;

verus! {

/// `builtin_interfaces/msg/Time`.
#[derive(Debug, Clone, Copy, PartialEq, Eq)]
pub struct Time {
    pub sec: i32,
    pub nanosec: u32,
}

/// `std_msgs/msg/Header`.
#[derive(Debug, Clone, PartialEq)]
pub struct Header {
    pub stamp: Time,
    pub frame_id: String,
}

/// `geometry_msgs/msg/Vector3`.
#[derive(Debug, Clone, Copy, PartialEq, Eq)]
pub struct Vector3 {
    pub x: u64,
    pub y: u64,
    pub z: u64,
}

/// `geometry_msgs/msg/Quaternion`.
#[derive(Debug, Clone, Copy, PartialEq, Eq)]
pub struct Quaternion {
    pub x: u64,
    pub y: u64,
    pub z: u64,
    pub w: u64,
}

/// `geometry_msgs/msg/Point`.
#[derive(Debug, Clone, Copy, PartialEq, Eq)]
pub struct Point {
    pub x: u64,
    pub y: u64,
    pub z: u64,
}

/// `geometry_msgs/msg/Pose`.
#[derive(Debug, Clone, Copy, PartialEq, Eq)]
pub struct Pose {
    pub position: Point,
    pub orientation: Quaternion,
}

/// `geometry_msgs/msg/Twist`.
#[derive(Debug, Clone, Copy, PartialEq, Eq)]
pub struct Twist {
    pub linear: Vector3,
    pub angular: Vector3,
}

/// `geometry_msgs/msg/PoseWithCovariance`: the 6x6 covariance, row by row.
#[derive(Debug, Clone, PartialEq)]
pub struct PoseWithCovariance {
    pub pose: Pose,
    pub covariance: [u64; 36],
}

/// `geometry_msgs/msg/TwistWithCovariance`: the 6x6 covariance, row by row.
#[derive(Debug, Clone, PartialEq)]
pub struct TwistWithCovariance {
    pub twist: Twist,
    pub covariance: [u64; 36],
}

/// `nav_msgs/msg/Odometry`.
#[derive(Debug, Clone, PartialEq)]
pub struct Odometry {
    pub header: Header,
    pub child_frame_id: String,
    pub pose: PoseWithCovariance,
    pub twist: TwistWithCovariance,
}

/// `std_msgs/msg/String`.
#[derive(Debug, Clone, PartialEq)]
pub struct StringMsg {
    pub data: String,
}

/// `sensor_msgs/msg/JointState`.
#[derive(Debug, Clone, PartialEq)]
pub struct JointState {
    pub header: Header,
    pub name: Vec<String>,
    pub position: Vec<u64>,
    pub velocity: Vec<u64>,
    pub effort: Vec<u64>,
}

/// `sensor_msgs/msg/LaserScan`, its `f32` values widened to `f64`.
#[derive(Debug, Clone, PartialEq)]
pub struct LaserScan {
    pub header: Header,
    pub angle_min: u64,
    pub angle_max: u64,
    pub angle_increment: u64,
    pub time_increment: u64,
    pub scan_time: u64,
    pub range_min: u64,
    pub range_max: u64,
    pub ranges: Vec<u64>,
    pub intensities: Vec<u64>,
}

/// `sensor_msgs/msg/Imu`: each covariance is 3x3, row by row.
#[derive(Debug, Clone, PartialEq)]
pub struct Imu {
    pub header: Header,
    pub orientation: Quaternion,
    pub orientation_covariance: [u64; 9],
    pub angular_velocity: Vector3,
    pub angular_velocity_covariance: [u64; 9],
    pub linear_acceleration: Vector3,
    pub linear_acceleration_covariance: [u64; 9],
}

/// `geometry_msgs/msg/PoseStamped`.
#[derive(Debug, Clone, PartialEq)]
pub struct PoseStamped {
    pub header: Header,
    pub pose: Pose,
}

/// `rcl_interfaces/msg/Log`.
#[derive(Debug, Clone, PartialEq)]
pub struct Log {
    pub stamp: Time,
    pub level: u8,
    pub name: String,
    pub msg: String,
    pub file: String,
    pub function: String,
    pub line: u32,
}

/// `rcl_interfaces/msg/ParameterValue`: a type tag and one field per type.
#[derive(Debug, Clone, PartialEq)]
pub struct RosParameterValue {
    pub kind: u8,
    pub bool_value: bool,
    pub integer_value: i64,
    pub double_value: u64,
    pub string_value: String,
    pub byte_array_value: Vec<u8>,
    pub bool_array_value: Vec<bool>,
    pub integer_array_value: Vec<i64>,
    pub double_array_value: Vec<u64>,
    pub string_array_value: Vec<String>,
}

/// A parameter message with its texts and lists as sequences.
pub struct RosParameterView {
    pub kind: u8,
    pub bool_value: bool,
    pub integer_value: i64,
    pub double_value: u64,
    pub string_value: Seq<char>,
    pub byte_array_value: Seq<u8>,
    pub bool_array_value: Seq<bool>,
    pub integer_array_value: Seq<i64>,
    pub double_array_value: Seq<u64>,
    pub string_array_value: Seq<Seq<char>>,
}

impl View for RosParameterValue {
    type V = RosParameterView;

    open spec fn view(&self) -> RosParameterView {
        RosParameterView {
            kind: self.kind,
            bool_value: self.bool_value,
            integer_value: self.integer_value,
            double_value: self.double_value,
            string_value: self.string_value@,
            byte_array_value: self.byte_array_value@,
            bool_array_value: self.bool_array_value@,
            integer_array_value: self.integer_array_value@,
            double_array_value: self.double_array_value@,
            string_array_value: self.string_array_value@.map_values(|s: String| s@),
        }
    }
}

} // verus!
