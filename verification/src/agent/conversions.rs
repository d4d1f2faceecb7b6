//! Converting bridged ROS 2 messages into `DynValue` trees, the registry of
//! message types with a static converter, and the parameter value mapping.
use vstd::prelude::*;

use crate::agent::ros_msgs::{
    Header, Imu, JointState, LaserScan, Log, Odometry, Point, Pose, PoseStamped, Quaternion,
    RosParameterValue, StringMsg, Time, Twist, Vector3,
};
use crate::agent::dynamic::{field_named, lemma_field_named_at};
use crate::agent::ros_msgs::RosParameterView;
use crate::protocol::params::{ParamValue, ParamView};
use crate::protocol::types::{lemma_array_view, lemma_struct_view, DynValue, DynView, Timestamp};
use crate::session::server::views;
use crate::text::{clone_strings, owned, str_eq, str_views};

verus! {

/// The views of a struct value's fields.
pub open spec fn field_views(fields: Seq<(String, DynValue)>) -> Seq<(Seq<char>, DynView)> {
    fields.map_values(|f: (String, DynValue)| (f.0@, f.1@))
}

/// A struct value of type `struct_type` with the given fields.
pub open spec fn struct_of(struct_type: Seq<char>, fields: Seq<(Seq<char>, DynView)>) -> DynView {
    DynView::Struct { struct_type, fields }
}

/// A list of doubles.
pub open spec fn f64_items(s: Seq<u64>) -> DynView {
    DynView::Array(s.map_values(|x: u64| DynView::F64(x)))
}

/// A list of strings.
pub open spec fn string_items(s: Seq<String>) -> DynView {
    DynView::Array(s.map_values(|x: String| DynView::String(x@)))
}

fn struct_value(struct_type: &str, fields: Vec<(String, DynValue)>) -> (r: DynValue)
    ensures
        r@ == struct_of(struct_type@, field_views(fields@)),
{
    let st = owned(struct_type);
    proof {
        lemma_struct_view(st, fields);
    }
    DynValue::Struct { struct_type: st, fields }
}

fn f64_array(v: &[u64]) -> (r: DynValue)
    ensures
        r@ == f64_items(v@),
{
    let mut items: Vec<DynValue> = Vec::new();
    let mut i: usize = 0;
    while i < v.len()
        invariant
            i <= v@.len(),
            items@.len() == i,
            forall|k: int| 0 <= k < i ==> #[trigger] items@[k]@ == DynView::F64(v@[k]),
        decreases v@.len() - i,
    {
        items.push(DynValue::F64(v[i]));
        i = i + 1;
    }
    proof {
        lemma_array_view(items);
        assert(items@.map_values(|x: DynValue| x@) =~= v@.map_values(|x: u64| DynView::F64(x)));
    }
    DynValue::Array(items)
}

fn string_array(v: &Vec<String>) -> (r: DynValue)
    ensures
        r@ == string_items(v@),
{
    let mut items: Vec<DynValue> = Vec::new();
    let mut i: usize = 0;
    while i < v.len()
        invariant
            i <= v@.len(),
            items@.len() == i,
            forall|k: int| 0 <= k < i ==> #[trigger] items@[k]@ == DynView::String(v@[k]@),
        decreases v@.len() - i,
    {
        items.push(DynValue::String(v[i].clone()));
        i = i + 1;
    }
    proof {
        lemma_array_view(items);
        assert(items@.map_values(|x: DynValue| x@) =~= v@.map_values(|x: String| DynView::String(x@)));
    }
    DynValue::Array(items)
}

/// A `builtin_interfaces/msg/Time` as a protocol time stamp.
pub fn timestamp_from_builtin(t: &Time) -> (r: Timestamp)
    ensures
        r == (Timestamp { sec: t.sec, nanosec: t.nanosec }),
{
    Timestamp { sec: t.sec, nanosec: t.nanosec }
}

/// A time stamp: `sec` and `nanosec`.
pub open spec fn time_value(t: Time) -> DynView {
    struct_of(
        "Time"@,
        seq![
        ("sec"@, DynView::I32(t.sec)),
        ("nanosec"@, DynView::U32(t.nanosec)),
        ],
    )
}

/// A time stamp: `sec` and `nanosec`.
fn time_to_dynvalue(t: &Time) -> (r: DynValue)
    ensures
        r@ == time_value(*t),
{
    let mut fields: Vec<(String, DynValue)> = Vec::new();
    fields.push((owned("sec"), DynValue::I32(t.sec)));
    fields.push((owned("nanosec"), DynValue::U32(t.nanosec)));
    assert(field_views(fields@) =~= seq![
            ("sec"@, DynView::I32(t.sec)),
            ("nanosec"@, DynView::U32(t.nanosec)),
    ]);
    struct_value("Time", fields)
}

/// A header: its stamp and frame.
pub open spec fn header_value(h: Header) -> DynView {
    struct_of(
        "Header"@,
        seq![
        ("stamp"@, time_value(h.stamp)),
        ("frame_id"@, DynView::String(h.frame_id@)),
        ],
    )
}

/// A header: its stamp and frame.
fn header_to_dynvalue(h: &Header) -> (r: DynValue)
    ensures
        r@ == header_value(*h),
{
    let mut fields: Vec<(String, DynValue)> = Vec::new();
    fields.push((owned("stamp"), time_to_dynvalue(&h.stamp)));
    fields.push((owned("frame_id"), DynValue::String(h.frame_id.clone())));
    assert(field_views(fields@) =~= seq![
            ("stamp"@, time_value(h.stamp)),
            ("frame_id"@, DynView::String(h.frame_id@)),
    ]);
    struct_value("Header", fields)
}

/// A vector: `x`, `y`, `z`.
pub open spec fn vector3_value(v: Vector3) -> DynView {
    struct_of(
        "Vector3"@,
        seq![
        ("x"@, DynView::F64(v.x)),
        ("y"@, DynView::F64(v.y)),
        ("z"@, DynView::F64(v.z)),
        ],
    )
}

/// A vector: `x`, `y`, `z`.
fn vector3_to_dynvalue(v: &Vector3) -> (r: DynValue)
    ensures
        r@ == vector3_value(*v),
{
    let mut fields: Vec<(String, DynValue)> = Vec::new();
    fields.push((owned("x"), DynValue::F64(v.x)));
    fields.push((owned("y"), DynValue::F64(v.y)));
    fields.push((owned("z"), DynValue::F64(v.z)));
    assert(field_views(fields@) =~= seq![
            ("x"@, DynView::F64(v.x)),
            ("y"@, DynView::F64(v.y)),
            ("z"@, DynView::F64(v.z)),
    ]);
    struct_value("Vector3", fields)
}

/// A quaternion: `x`, `y`, `z`, `w`.
pub open spec fn quaternion_value(q: Quaternion) -> DynView {
    struct_of(
        "Quaternion"@,
        seq![
        ("x"@, DynView::F64(q.x)),
        ("y"@, DynView::F64(q.y)),
        ("z"@, DynView::F64(q.z)),
        ("w"@, DynView::F64(q.w)),
        ],
    )
}

/// A quaternion: `x`, `y`, `z`, `w`.
fn quaternion_to_dynvalue(q: &Quaternion) -> (r: DynValue)
    ensures
        r@ == quaternion_value(*q),
{
    let mut fields: Vec<(String, DynValue)> = Vec::new();
    fields.push((owned("x"), DynValue::F64(q.x)));
    fields.push((owned("y"), DynValue::F64(q.y)));
    fields.push((owned("z"), DynValue::F64(q.z)));
    fields.push((owned("w"), DynValue::F64(q.w)));
    assert(field_views(fields@) =~= seq![
            ("x"@, DynView::F64(q.x)),
            ("y"@, DynView::F64(q.y)),
            ("z"@, DynView::F64(q.z)),
            ("w"@, DynView::F64(q.w)),
    ]);
    struct_value("Quaternion", fields)
}

/// A point: `x`, `y`, `z`.
pub open spec fn point_value(p: Point) -> DynView {
    struct_of(
        "Point"@,
        seq![
        ("x"@, DynView::F64(p.x)),
        ("y"@, DynView::F64(p.y)),
        ("z"@, DynView::F64(p.z)),
        ],
    )
}

/// A point: `x`, `y`, `z`.
fn point_to_dynvalue(p: &Point) -> (r: DynValue)
    ensures
        r@ == point_value(*p),
{
    let mut fields: Vec<(String, DynValue)> = Vec::new();
    fields.push((owned("x"), DynValue::F64(p.x)));
    fields.push((owned("y"), DynValue::F64(p.y)));
    fields.push((owned("z"), DynValue::F64(p.z)));
    assert(field_views(fields@) =~= seq![
            ("x"@, DynView::F64(p.x)),
            ("y"@, DynView::F64(p.y)),
            ("z"@, DynView::F64(p.z)),
    ]);
    struct_value("Point", fields)
}

/// A pose: position and orientation.
pub open spec fn pose_value(p: Pose) -> DynView {
    struct_of(
        "Pose"@,
        seq![
        ("position"@, point_value(p.position)),
        ("orientation"@, quaternion_value(p.orientation)),
        ],
    )
}

/// A pose: position and orientation.
fn pose_to_dynvalue(p: &Pose) -> (r: DynValue)
    ensures
        r@ == pose_value(*p),
{
    let mut fields: Vec<(String, DynValue)> = Vec::new();
    fields.push((owned("position"), point_to_dynvalue(&p.position)));
    fields.push((owned("orientation"), quaternion_to_dynvalue(&p.orientation)));
    assert(field_views(fields@) =~= seq![
            ("position"@, point_value(p.position)),
            ("orientation"@, quaternion_value(p.orientation)),
    ]);
    struct_value("Pose", fields)
}

/// A twist: linear and angular velocity.
pub open spec fn twist_value(t: Twist) -> DynView {
    struct_of(
        "Twist"@,
        seq![
        ("linear"@, vector3_value(t.linear)),
        ("angular"@, vector3_value(t.angular)),
        ],
    )
}

/// A twist: linear and angular velocity.
fn twist_to_dynvalue(t: &Twist) -> (r: DynValue)
    ensures
        r@ == twist_value(*t),
{
    let mut fields: Vec<(String, DynValue)> = Vec::new();
    fields.push((owned("linear"), vector3_to_dynvalue(&t.linear)));
    fields.push((owned("angular"), vector3_to_dynvalue(&t.angular)));
    assert(field_views(fields@) =~= seq![
            ("linear"@, vector3_value(t.linear)),
            ("angular"@, vector3_value(t.angular)),
    ]);
    struct_value("Twist", fields)
}

/// A pose with its covariance.
pub open spec fn pose_with_covariance_value(p: crate::agent::ros_msgs::PoseWithCovariance) -> DynView {
    struct_of(
        "PoseWithCovariance"@,
        seq![
        ("pose"@, pose_value(p.pose)),
        ("covariance"@, f64_items(p.covariance@)),
        ],
    )
}

/// A pose with its covariance.
fn pose_with_covariance_to_dynvalue(p: &crate::agent::ros_msgs::PoseWithCovariance) -> (r: DynValue)
    ensures
        r@ == pose_with_covariance_value(*p),
{
    let mut fields: Vec<(String, DynValue)> = Vec::new();
    fields.push((owned("pose"), pose_to_dynvalue(&p.pose)));
    fields.push((owned("covariance"), f64_array(p.covariance.as_slice())));
    assert(field_views(fields@) =~= seq![
            ("pose"@, pose_value(p.pose)),
            ("covariance"@, f64_items(p.covariance@)),
    ]);
    struct_value("PoseWithCovariance", fields)
}

/// A twist with its covariance.
pub open spec fn twist_with_covariance_value(t: crate::agent::ros_msgs::TwistWithCovariance) -> DynView {
    struct_of(
        "TwistWithCovariance"@,
        seq![
        ("twist"@, twist_value(t.twist)),
        ("covariance"@, f64_items(t.covariance@)),
        ],
    )
}

/// A twist with its covariance.
fn twist_with_covariance_to_dynvalue(t: &crate::agent::ros_msgs::TwistWithCovariance) -> (r: DynValue)
    ensures
        r@ == twist_with_covariance_value(*t),
{
    let mut fields: Vec<(String, DynValue)> = Vec::new();
    fields.push((owned("twist"), twist_to_dynvalue(&t.twist)));
    fields.push((owned("covariance"), f64_array(t.covariance.as_slice())));
    assert(field_views(fields@) =~= seq![
            ("twist"@, twist_value(t.twist)),
            ("covariance"@, f64_items(t.covariance@)),
    ]);
    struct_value("TwistWithCovariance", fields)
}

/// An odometry message: header, child frame, pose and twist with covariances.
pub open spec fn odometry_value(msg: Odometry) -> DynView {
    struct_of(
        "Odometry"@,
        seq![
        ("header"@, header_value(msg.header)),
        ("child_frame_id"@, DynView::String(msg.child_frame_id@)),
        ("pose"@, pose_with_covariance_value(msg.pose)),
        ("twist"@, twist_with_covariance_value(msg.twist)),
        ],
    )
}

/// An odometry message: header, child frame, pose and twist with covariances.
pub fn odometry_to_dynvalue(msg: &Odometry) -> (r: DynValue)
    ensures
        r@ == odometry_value(*msg),
{
    let mut fields: Vec<(String, DynValue)> = Vec::new();
    fields.push((owned("header"), header_to_dynvalue(&msg.header)));
    fields.push((owned("child_frame_id"), DynValue::String(msg.child_frame_id.clone())));
    fields.push((owned("pose"), pose_with_covariance_to_dynvalue(&msg.pose)));
    fields.push((owned("twist"), twist_with_covariance_to_dynvalue(&msg.twist)));
    assert(field_views(fields@) =~= seq![
            ("header"@, header_value(msg.header)),
            ("child_frame_id"@, DynView::String(msg.child_frame_id@)),
            ("pose"@, pose_with_covariance_value(msg.pose)),
            ("twist"@, twist_with_covariance_value(msg.twist)),
    ]);
    struct_value("Odometry", fields)
}

/// A joint state: header, joint names, positions, velocities and efforts.
pub open spec fn joint_state_value(msg: JointState) -> DynView {
    struct_of(
        "JointState"@,
        seq![
        ("header"@, header_value(msg.header)),
        ("name"@, string_items(msg.name@)),
        ("position"@, f64_items(msg.position@)),
        ("velocity"@, f64_items(msg.velocity@)),
        ("effort"@, f64_items(msg.effort@)),
        ],
    )
}

/// A joint state: header, joint names, positions, velocities and efforts.
pub fn joint_state_to_dynvalue(msg: &JointState) -> (r: DynValue)
    ensures
        r@ == joint_state_value(*msg),
{
    let mut fields: Vec<(String, DynValue)> = Vec::new();
    fields.push((owned("header"), header_to_dynvalue(&msg.header)));
    fields.push((owned("name"), string_array(&msg.name)));
    fields.push((owned("position"), f64_array(&msg.position)));
    fields.push((owned("velocity"), f64_array(&msg.velocity)));
    fields.push((owned("effort"), f64_array(&msg.effort)));
    assert(field_views(fields@) =~= seq![
            ("header"@, header_value(msg.header)),
            ("name"@, string_items(msg.name@)),
            ("position"@, f64_items(msg.position@)),
            ("velocity"@, f64_items(msg.velocity@)),
            ("effort"@, f64_items(msg.effort@)),
    ]);
    struct_value("JointState", fields)
}

/// A laser scan: header, the scan geometry and timing as doubles, ranges and intensities.
pub open spec fn laser_scan_value(msg: LaserScan) -> DynView {
    struct_of(
        "LaserScan"@,
        seq![
        ("header"@, header_value(msg.header)),
        ("angle_min"@, DynView::F64(msg.angle_min)),
        ("angle_max"@, DynView::F64(msg.angle_max)),
        ("angle_increment"@, DynView::F64(msg.angle_increment)),
        ("time_increment"@, DynView::F64(msg.time_increment)),
        ("scan_time"@, DynView::F64(msg.scan_time)),
        ("range_min"@, DynView::F64(msg.range_min)),
        ("range_max"@, DynView::F64(msg.range_max)),
        ("ranges"@, f64_items(msg.ranges@)),
        ("intensities"@, f64_items(msg.intensities@)),
        ],
    )
}

/// A laser scan: header, the scan geometry and timing as doubles, ranges and intensities.
pub fn laser_scan_to_dynvalue(msg: &LaserScan) -> (r: DynValue)
    ensures
        r@ == laser_scan_value(*msg),
{
    let mut fields: Vec<(String, DynValue)> = Vec::new();
    fields.push((owned("header"), header_to_dynvalue(&msg.header)));
    fields.push((owned("angle_min"), DynValue::F64(msg.angle_min)));
    fields.push((owned("angle_max"), DynValue::F64(msg.angle_max)));
    fields.push((owned("angle_increment"), DynValue::F64(msg.angle_increment)));
    fields.push((owned("time_increment"), DynValue::F64(msg.time_increment)));
    fields.push((owned("scan_time"), DynValue::F64(msg.scan_time)));
    fields.push((owned("range_min"), DynValue::F64(msg.range_min)));
    fields.push((owned("range_max"), DynValue::F64(msg.range_max)));
    fields.push((owned("ranges"), f64_array(&msg.ranges)));
    fields.push((owned("intensities"), f64_array(&msg.intensities)));
    assert(field_views(fields@) =~= seq![
            ("header"@, header_value(msg.header)),
            ("angle_min"@, DynView::F64(msg.angle_min)),
            ("angle_max"@, DynView::F64(msg.angle_max)),
            ("angle_increment"@, DynView::F64(msg.angle_increment)),
            ("time_increment"@, DynView::F64(msg.time_increment)),
            ("scan_time"@, DynView::F64(msg.scan_time)),
            ("range_min"@, DynView::F64(msg.range_min)),
            ("range_max"@, DynView::F64(msg.range_max)),
            ("ranges"@, f64_items(msg.ranges@)),
            ("intensities"@, f64_items(msg.intensities@)),
    ]);
    struct_value("LaserScan", fields)
}

/// An IMU sample: header, orientation, angular velocity and linear acceleration, each with its covariance.
pub open spec fn imu_value(msg: Imu) -> DynView {
    struct_of(
        "Imu"@,
        seq![
        ("header"@, header_value(msg.header)),
        ("orientation"@, quaternion_value(msg.orientation)),
        ("orientation_covariance"@, f64_items(msg.orientation_covariance@)),
        ("angular_velocity"@, vector3_value(msg.angular_velocity)),
        ("angular_velocity_covariance"@, f64_items(msg.angular_velocity_covariance@)),
        ("linear_acceleration"@, vector3_value(msg.linear_acceleration)),
        ("linear_acceleration_covariance"@, f64_items(msg.linear_acceleration_covariance@)),
        ],
    )
}

/// An IMU sample: header, orientation, angular velocity and linear acceleration, each with its covariance.
pub fn imu_to_dynvalue(msg: &Imu) -> (r: DynValue)
    ensures
        r@ == imu_value(*msg),
{
    let mut fields: Vec<(String, DynValue)> = Vec::new();
    fields.push((owned("header"), header_to_dynvalue(&msg.header)));
    fields.push((owned("orientation"), quaternion_to_dynvalue(&msg.orientation)));
    fields.push((owned("orientation_covariance"), f64_array(msg.orientation_covariance.as_slice())));
    fields.push((owned("angular_velocity"), vector3_to_dynvalue(&msg.angular_velocity)));
    fields.push((owned("angular_velocity_covariance"), f64_array(msg.angular_velocity_covariance.as_slice())));
    fields.push((owned("linear_acceleration"), vector3_to_dynvalue(&msg.linear_acceleration)));
    fields.push((owned("linear_acceleration_covariance"), f64_array(msg.linear_acceleration_covariance.as_slice())));
    assert(field_views(fields@) =~= seq![
            ("header"@, header_value(msg.header)),
            ("orientation"@, quaternion_value(msg.orientation)),
            ("orientation_covariance"@, f64_items(msg.orientation_covariance@)),
            ("angular_velocity"@, vector3_value(msg.angular_velocity)),
            ("angular_velocity_covariance"@, f64_items(msg.angular_velocity_covariance@)),
            ("linear_acceleration"@, vector3_value(msg.linear_acceleration)),
            ("linear_acceleration_covariance"@, f64_items(msg.linear_acceleration_covariance@)),
    ]);
    struct_value("Imu", fields)
}

/// A stamped pose: header and pose.
pub open spec fn pose_stamped_value(msg: PoseStamped) -> DynView {
    struct_of(
        "PoseStamped"@,
        seq![
        ("header"@, header_value(msg.header)),
        ("pose"@, pose_value(msg.pose)),
        ],
    )
}

/// A stamped pose: header and pose.
pub fn pose_stamped_to_dynvalue(msg: &PoseStamped) -> (r: DynValue)
    ensures
        r@ == pose_stamped_value(*msg),
{
    let mut fields: Vec<(String, DynValue)> = Vec::new();
    fields.push((owned("header"), header_to_dynvalue(&msg.header)));
    fields.push((owned("pose"), pose_to_dynvalue(&msg.pose)));
    assert(field_views(fields@) =~= seq![
            ("header"@, header_value(msg.header)),
            ("pose"@, pose_value(msg.pose)),
    ]);
    struct_value("PoseStamped", fields)
}

/// A twist message: the twist itself.
pub fn twist_msg_to_dynvalue(msg: &Twist) -> (r: DynValue)
    ensures
        r@ == twist_value(*msg),
{
    twist_to_dynvalue(msg)
}

/// A string message: its text.
pub fn string_to_dynvalue(msg: &StringMsg) -> (r: DynValue)
    ensures
        r@ == DynView::String(msg.data@),
{
    DynValue::String(msg.data.clone())
}

/// The name of a log severity level; `UNKNOWN` for any other number.
pub open spec fn log_level_text(level: u8) -> Seq<char> {
    if level == 10 {
        "DEBUG"@
    } else if level == 20 {
        "INFO"@
    } else if level == 30 {
        "WARN"@
    } else if level == 40 {
        "ERROR"@
    } else if level == 50 {
        "FATAL"@
    } else {
        "UNKNOWN"@
    }
}

/// A log message: stamp, level name, logger name, text, source location.
pub open spec fn log_value(msg: Log) -> DynView {
    struct_of(
        "Log"@,
        seq![
            ("stamp"@, time_value(msg.stamp)),
            ("level"@, DynView::String(log_level_text(msg.level))),
            ("name"@, DynView::String(msg.name@)),
            ("msg"@, DynView::String(msg.msg@)),
            ("file"@, DynView::String(msg.file@)),
            ("function"@, DynView::String(msg.function@)),
            ("line"@, DynView::U32(msg.line)),
        ],
    )
}

/// A log message: stamp, level name, logger name, text, source location.
pub fn log_to_dynvalue(msg: &Log) -> (r: DynValue)
    ensures
        r@ == log_value(*msg),
{
    let level = if msg.level == 10 {
        "DEBUG"
    } else if msg.level == 20 {
        "INFO"
    } else if msg.level == 30 {
        "WARN"
    } else if msg.level == 40 {
        "ERROR"
    } else if msg.level == 50 {
        "FATAL"
    } else {
        "UNKNOWN"
    };
    let mut fields: Vec<(String, DynValue)> = Vec::new();
    fields.push((owned("stamp"), time_to_dynvalue(&msg.stamp)));
    fields.push((owned("level"), DynValue::String(owned(level))));
    fields.push((owned("name"), DynValue::String(msg.name.clone())));
    fields.push((owned("msg"), DynValue::String(msg.msg.clone())));
    fields.push((owned("file"), DynValue::String(msg.file.clone())));
    fields.push((owned("function"), DynValue::String(msg.function.clone())));
    fields.push((owned("line"), DynValue::U32(msg.line)));
    assert(field_views(fields@) =~= seq![
        ("stamp"@, time_value(msg.stamp)),
        ("level"@, DynView::String(log_level_text(msg.level))),
        ("name"@, DynView::String(msg.name@)),
        ("msg"@, DynView::String(msg.msg@)),
        ("file"@, DynView::String(msg.file@)),
        ("function"@, DynView::String(msg.function@)),
        ("line"@, DynView::U32(msg.line)),
    ]);
    struct_value("Log", fields)
}

/// A message type the agent has a static converter for.
#[derive(Debug, Clone, Copy, PartialEq, Eq)]
pub enum MessageKind {
    Odometry,
    Twist,
    String,
    JointState,
    LaserScan,
    Imu,
    PoseStamped,
    Log,
}

/// The message types with a static converter, in registry order.
pub open spec fn supported_types_spec() -> Seq<Seq<char>> {
    seq![
        "nav_msgs/msg/Odometry"@,
        "geometry_msgs/msg/Twist"@,
        "std_msgs/msg/String"@,
        "sensor_msgs/msg/JointState"@,
        "sensor_msgs/msg/LaserScan"@,
        "sensor_msgs/msg/Imu"@,
        "geometry_msgs/msg/PoseStamped"@,
        "rcl_interfaces/msg/Log"@,
    ]
}

/// The full type name of a message kind.
pub open spec fn kind_type_spec(k: MessageKind) -> Seq<char> {
    match k {
        MessageKind::Odometry => "nav_msgs/msg/Odometry"@,
        MessageKind::Twist => "geometry_msgs/msg/Twist"@,
        MessageKind::String => "std_msgs/msg/String"@,
        MessageKind::JointState => "sensor_msgs/msg/JointState"@,
        MessageKind::LaserScan => "sensor_msgs/msg/LaserScan"@,
        MessageKind::Imu => "sensor_msgs/msg/Imu"@,
        MessageKind::PoseStamped => "geometry_msgs/msg/PoseStamped"@,
        MessageKind::Log => "rcl_interfaces/msg/Log"@,
    }
}

/// The registry entry for a full type name, if it has one.
pub open spec fn kind_of_type(t: Seq<char>) -> Option<MessageKind> {
    if t == "nav_msgs/msg/Odometry"@ {
        Some(MessageKind::Odometry)
    } else if t == "geometry_msgs/msg/Twist"@ {
        Some(MessageKind::Twist)
    } else if t == "std_msgs/msg/String"@ {
        Some(MessageKind::String)
    } else if t == "sensor_msgs/msg/JointState"@ {
        Some(MessageKind::JointState)
    } else if t == "sensor_msgs/msg/LaserScan"@ {
        Some(MessageKind::LaserScan)
    } else if t == "sensor_msgs/msg/Imu"@ {
        Some(MessageKind::Imu)
    } else if t == "geometry_msgs/msg/PoseStamped"@ {
        Some(MessageKind::PoseStamped)
    } else if t == "rcl_interfaces/msg/Log"@ {
        Some(MessageKind::Log)
    } else {
        None
    }
}

impl MessageKind {
    /// The full type name, e.g. `nav_msgs/msg/Odometry`.
    pub fn msg_type(&self) -> (r: &'static str)
        ensures
            r@ == kind_type_spec(*self),
    {
        match self {
            MessageKind::Odometry => "nav_msgs/msg/Odometry",
            MessageKind::Twist => "geometry_msgs/msg/Twist",
            MessageKind::String => "std_msgs/msg/String",
            MessageKind::JointState => "sensor_msgs/msg/JointState",
            MessageKind::LaserScan => "sensor_msgs/msg/LaserScan",
            MessageKind::Imu => "sensor_msgs/msg/Imu",
            MessageKind::PoseStamped => "geometry_msgs/msg/PoseStamped",
            MessageKind::Log => "rcl_interfaces/msg/Log",
        }
    }
}

/// The message types with a static converter.
pub fn supported_message_types() -> (r: Vec<&'static str>)
    ensures
        str_views(r@) == supported_types_spec(),
{
    let mut r: Vec<&'static str> = Vec::new();
    r.push("nav_msgs/msg/Odometry");
    r.push("geometry_msgs/msg/Twist");
    r.push("std_msgs/msg/String");
    r.push("sensor_msgs/msg/JointState");
    r.push("sensor_msgs/msg/LaserScan");
    r.push("sensor_msgs/msg/Imu");
    r.push("geometry_msgs/msg/PoseStamped");
    r.push("rcl_interfaces/msg/Log");
    assert(str_views(r@) =~= supported_types_spec());
    r
}

/// The registry entry for a message type, if it has a static converter.
pub fn message_type_entry(msg_type: &str) -> (r: Option<MessageKind>)
    ensures
        r == kind_of_type(msg_type@),
{
    if str_eq(msg_type, "nav_msgs/msg/Odometry") {
        Some(MessageKind::Odometry)
    } else if str_eq(msg_type, "geometry_msgs/msg/Twist") {
        Some(MessageKind::Twist)
    } else if str_eq(msg_type, "std_msgs/msg/String") {
        Some(MessageKind::String)
    } else if str_eq(msg_type, "sensor_msgs/msg/JointState") {
        Some(MessageKind::JointState)
    } else if str_eq(msg_type, "sensor_msgs/msg/LaserScan") {
        Some(MessageKind::LaserScan)
    } else if str_eq(msg_type, "sensor_msgs/msg/Imu") {
        Some(MessageKind::Imu)
    } else if str_eq(msg_type, "geometry_msgs/msg/PoseStamped") {
        Some(MessageKind::PoseStamped)
    } else if str_eq(msg_type, "rcl_interfaces/msg/Log") {
        Some(MessageKind::Log)
    } else {
        None
    }
}

/// The registry lists each type once, and every listed type has its entry,
/// which carries that type name back; a type that is not listed has none.
pub proof fn lemma_registry_consistent(t: Seq<char>)
    ensures
        supported_types_spec().no_duplicates(),
        forall|i: int|
            0 <= i < supported_types_spec().len() ==> ((#[trigger] kind_of_type(
                supported_types_spec()[i],
            )) matches Some(k) && kind_type_spec(k) == supported_types_spec()[i]),
        kind_of_type(t) is Some <==> supported_types_spec().contains(t),
{
    reveal_strlit("nav_msgs/msg/Odometry");
    reveal_strlit("geometry_msgs/msg/Twist");
    reveal_strlit("std_msgs/msg/String");
    reveal_strlit("sensor_msgs/msg/JointState");
    reveal_strlit("sensor_msgs/msg/LaserScan");
    reveal_strlit("sensor_msgs/msg/Imu");
    reveal_strlit("geometry_msgs/msg/PoseStamped");
    reveal_strlit("rcl_interfaces/msg/Log");
    let s = supported_types_spec();
    assert(s.no_duplicates()) by {
        assert forall|i: int, j: int| 0 <= i < s.len() && 0 <= j < s.len() && i != j implies s[i]
            != s[j] by {
            if s[i].len() == s[j].len() {
                assert(s[i][0] != s[j][0] || s[i][14] != s[j][14] || s[i][10] != s[j][10]);
            }
        }
    }
    if supported_types_spec().contains(t) {
        let i = choose|i: int| 0 <= i < s.len() && s[i] == t;
        assert(kind_of_type(s[i]) is Some);
    }
}

/// The type tags of `rcl_interfaces/msg/ParameterType`.
pub open spec fn param_tag(v: ParamView) -> u8 {
    match v {
        ParamView::NotSet => 0,
        ParamView::Bool(_) => 1,
        ParamView::Integer(_) => 2,
        ParamView::Double(_) => 3,
        ParamView::String(_) => 4,
        ParamView::ByteArray(_) => 5,
        ParamView::BoolArray(_) => 6,
        ParamView::IntegerArray(_) => 7,
        ParamView::DoubleArray(_) => 8,
        ParamView::StringArray(_) => 9,
    }
}

/// The value a parameter message holds, read by its type tag; an unknown
/// tag reads as not set.
pub open spec fn from_ros_spec(m: RosParameterView) -> ParamView {
    if m.kind == 1 {
        ParamView::Bool(m.bool_value)
    } else if m.kind == 2 {
        ParamView::Integer(m.integer_value)
    } else if m.kind == 3 {
        ParamView::Double(m.double_value)
    } else if m.kind == 4 {
        ParamView::String(m.string_value)
    } else if m.kind == 5 {
        ParamView::ByteArray(m.byte_array_value)
    } else if m.kind == 6 {
        ParamView::BoolArray(m.bool_array_value)
    } else if m.kind == 7 {
        ParamView::IntegerArray(m.integer_array_value)
    } else if m.kind == 8 {
        ParamView::DoubleArray(m.double_array_value)
    } else if m.kind == 9 {
        ParamView::StringArray(m.string_array_value)
    } else {
        ParamView::NotSet
    }
}

/// The parameter message for a value: its type tag and the field of that
/// type set, every other field left at its default (false, zero, empty).
pub open spec fn to_ros_spec(v: ParamView) -> RosParameterView {
    RosParameterView {
        kind: param_tag(v),
        bool_value: match v {
            ParamView::Bool(b) => b,
            _ => false,
        },
        integer_value: match v {
            ParamView::Integer(i) => i,
            _ => 0,
        },
        double_value: match v {
            ParamView::Double(d) => d,
            _ => 0,
        },
        string_value: match v {
            ParamView::String(s) => s,
            _ => Seq::empty(),
        },
        byte_array_value: match v {
            ParamView::ByteArray(a) => a,
            _ => Seq::empty(),
        },
        bool_array_value: match v {
            ParamView::BoolArray(a) => a,
            _ => Seq::empty(),
        },
        integer_array_value: match v {
            ParamView::IntegerArray(a) => a,
            _ => Seq::empty(),
        },
        double_array_value: match v {
            ParamView::DoubleArray(a) => a,
            _ => Seq::empty(),
        },
        string_array_value: match v {
            ParamView::StringArray(a) => a,
            _ => Seq::empty(),
        },
    }
}

/// A ROS 2 parameter message as a parameter value.
pub fn param_value_from_ros(v: &RosParameterValue) -> (r: ParamValue)
    ensures
        r@ == from_ros_spec(v@),
{
    if v.kind == 1 {
        ParamValue::Bool(v.bool_value)
    } else if v.kind == 2 {
        ParamValue::Integer(v.integer_value)
    } else if v.kind == 3 {
        ParamValue::Double(v.double_value)
    } else if v.kind == 4 {
        ParamValue::String(v.string_value.clone())
    } else if v.kind == 5 {
        let a = v.byte_array_value.clone();
        assert(a@ =~= v.byte_array_value@);
        ParamValue::ByteArray(a)
    } else if v.kind == 6 {
        let a = v.bool_array_value.clone();
        assert(a@ =~= v.bool_array_value@);
        ParamValue::BoolArray(a)
    } else if v.kind == 7 {
        let a = v.integer_array_value.clone();
        assert(a@ =~= v.integer_array_value@);
        ParamValue::IntegerArray(a)
    } else if v.kind == 8 {
        let a = v.double_array_value.clone();
        assert(a@ =~= v.double_array_value@);
        ParamValue::DoubleArray(a)
    } else if v.kind == 9 {
        let a = clone_strings(&v.string_array_value);
        assert(views(a@) =~= v.string_array_value@.map_values(|s: String| s@));
        ParamValue::StringArray(a)
    } else {
        ParamValue::NotSet
    }
}

/// The ROS 2 parameter message for a parameter value.
pub fn param_value_to_ros(v: &ParamValue) -> (r: RosParameterValue)
    ensures
        r@ == to_ros_spec(v@),
{
    let mut out = RosParameterValue {
        kind: 0,
        bool_value: false,
        integer_value: 0,
        double_value: 0,
        string_value: String::new(),
        byte_array_value: Vec::new(),
        bool_array_value: Vec::new(),
        integer_array_value: Vec::new(),
        double_array_value: Vec::new(),
        string_array_value: Vec::new(),
    };
    match v {
        ParamValue::NotSet => {
            out.kind = 0;
        },
        ParamValue::Bool(b) => {
            out.kind = 1;
            out.bool_value = *b;
        },
        ParamValue::Integer(i) => {
            out.kind = 2;
            out.integer_value = *i;
        },
        ParamValue::Double(d) => {
            out.kind = 3;
            out.double_value = *d;
        },
        ParamValue::String(s) => {
            out.kind = 4;
            out.string_value = s.clone();
        },
        ParamValue::ByteArray(a) => {
            out.kind = 5;
            out.byte_array_value = a.clone();
            assert(out.byte_array_value@ =~= a@);
        },
        ParamValue::BoolArray(a) => {
            out.kind = 6;
            out.bool_array_value = a.clone();
            assert(out.bool_array_value@ =~= a@);
        },
        ParamValue::IntegerArray(a) => {
            out.kind = 7;
            out.integer_array_value = a.clone();
            assert(out.integer_array_value@ =~= a@);
        },
        ParamValue::DoubleArray(a) => {
            out.kind = 8;
            out.double_array_value = a.clone();
            assert(out.double_array_value@ =~= a@);
        },
        ParamValue::StringArray(a) => {
            out.kind = 9;
            out.string_array_value = clone_strings(a);
        },
    }
    proof {
        assert(out.string_array_value@.map_values(|s: String| s@) =~= to_ros_spec(v@).string_array_value);
        assert(out@.string_value =~= to_ros_spec(v@).string_value);
        assert(out@.byte_array_value =~= to_ros_spec(v@).byte_array_value);
        assert(out@.bool_array_value =~= to_ros_spec(v@).bool_array_value);
        assert(out@.integer_array_value =~= to_ros_spec(v@).integer_array_value);
        assert(out@.double_array_value =~= to_ros_spec(v@).double_array_value);
    }
    out
}

/// Round trip: a parameter value sent to ROS 2 as a parameter message and
/// read back is the same value.
pub proof fn lemma_param_ros_round_trip(v: ParamView)
    ensures
        from_ros_spec(to_ros_spec(v)) == v,
{
}

/// `v` is an array holding, item by item, the doubles `xs`.
pub open spec fn holds_doubles(v: DynView, xs: Seq<u64>) -> bool {
    &&& v is Array
    &&& v->Array_0.len() == xs.len()
    &&& forall|i: int| 0 <= i < xs.len() ==> v->Array_0[i] == DynView::F64(xs[i])
}

/// `v` is an array holding, item by item, the strings `xs`.
pub open spec fn holds_strings(v: DynView, xs: Seq<String>) -> bool {
    &&& v is Array
    &&& v->Array_0.len() == xs.len()
    &&& forall|i: int| 0 <= i < xs.len() ==> v->Array_0[i] == DynView::String(xs[i]@)
}

/// The field named `name` of `v` holds the doubles `xs`.
pub open spec fn field_holds_doubles(v: DynView, name: Seq<char>, xs: Seq<u64>) -> bool {
    field_named(v, name) matches Some(f) && holds_doubles(f, xs)
}

/// A laser scan's tree holds each of the scan's values under the field of
/// the same name: the geometry and timing as doubles, and `ranges` and
/// `intensities` item by item.
pub proof fn lemma_laser_scan_fields(msg: LaserScan)
    ensures
        field_named(laser_scan_value(msg), "angle_min"@) == Some(DynView::F64(msg.angle_min)),
        field_named(laser_scan_value(msg), "angle_max"@) == Some(DynView::F64(msg.angle_max)),
        field_named(laser_scan_value(msg), "angle_increment"@) == Some(
            DynView::F64(msg.angle_increment),
        ),
        field_named(laser_scan_value(msg), "time_increment"@) == Some(
            DynView::F64(msg.time_increment),
        ),
        field_named(laser_scan_value(msg), "scan_time"@) == Some(DynView::F64(msg.scan_time)),
        field_named(laser_scan_value(msg), "range_min"@) == Some(DynView::F64(msg.range_min)),
        field_named(laser_scan_value(msg), "range_max"@) == Some(DynView::F64(msg.range_max)),
        field_holds_doubles(laser_scan_value(msg), "ranges"@, msg.ranges@),
        field_holds_doubles(laser_scan_value(msg), "intensities"@, msg.intensities@),
{
    reveal_strlit("header");
    reveal_strlit("angle_min");
    reveal_strlit("angle_max");
    reveal_strlit("angle_increment");
    reveal_strlit("time_increment");
    reveal_strlit("scan_time");
    reveal_strlit("range_min");
    reveal_strlit("range_max");
    reveal_strlit("ranges");
    reveal_strlit("intensities");
    let v = laser_scan_value(msg);
    assert forall|j: int| 0 <= j < 1 implies #[trigger] v->fields[j].0 != "angle_min"@ by {
        {
            assert(v->fields[0].0 == "header"@);
            assert("header"@.len() != "angle_min"@.len());
        }
    }
    lemma_field_named_at(v, "angle_min"@, 1);
    assert forall|j: int| 0 <= j < 2 implies #[trigger] v->fields[j].0 != "angle_max"@ by {
        if j == 0 {
            assert(v->fields[0].0 == "header"@);
            assert("header"@.len() != "angle_max"@.len());
        } else {
            assert(v->fields[1].0 == "angle_min"@);
            assert("angle_min"@[7] != "angle_max"@[7]);
        }
    }
    lemma_field_named_at(v, "angle_max"@, 2);
    assert forall|j: int| 0 <= j < 3 implies #[trigger] v->fields[j].0 != "angle_increment"@ by {
        if j == 0 {
            assert(v->fields[0].0 == "header"@);
            assert("header"@.len() != "angle_increment"@.len());
        } else if j == 1 {
            assert(v->fields[1].0 == "angle_min"@);
            assert("angle_min"@.len() != "angle_increment"@.len());
        } else {
            assert(v->fields[2].0 == "angle_max"@);
            assert("angle_max"@.len() != "angle_increment"@.len());
        }
    }
    lemma_field_named_at(v, "angle_increment"@, 3);
    assert forall|j: int| 0 <= j < 4 implies #[trigger] v->fields[j].0 != "time_increment"@ by {
        if j == 0 {
            assert(v->fields[0].0 == "header"@);
            assert("header"@.len() != "time_increment"@.len());
        } else if j == 1 {
            assert(v->fields[1].0 == "angle_min"@);
            assert("angle_min"@.len() != "time_increment"@.len());
        } else if j == 2 {
            assert(v->fields[2].0 == "angle_max"@);
            assert("angle_max"@.len() != "time_increment"@.len());
        } else {
            assert(v->fields[3].0 == "angle_increment"@);
            assert("angle_increment"@.len() != "time_increment"@.len());
        }
    }
    lemma_field_named_at(v, "time_increment"@, 4);
    assert forall|j: int| 0 <= j < 5 implies #[trigger] v->fields[j].0 != "scan_time"@ by {
        if j == 0 {
            assert(v->fields[0].0 == "header"@);
            assert("header"@.len() != "scan_time"@.len());
        } else if j == 1 {
            assert(v->fields[1].0 == "angle_min"@);
            assert("angle_min"@[0] != "scan_time"@[0]);
        } else if j == 2 {
            assert(v->fields[2].0 == "angle_max"@);
            assert("angle_max"@[0] != "scan_time"@[0]);
        } else if j == 3 {
            assert(v->fields[3].0 == "angle_increment"@);
            assert("angle_increment"@.len() != "scan_time"@.len());
        } else {
            assert(v->fields[4].0 == "time_increment"@);
            assert("time_increment"@.len() != "scan_time"@.len());
        }
    }
    lemma_field_named_at(v, "scan_time"@, 5);
    assert forall|j: int| 0 <= j < 6 implies #[trigger] v->fields[j].0 != "range_min"@ by {
        if j == 0 {
            assert(v->fields[0].0 == "header"@);
            assert("header"@.len() != "range_min"@.len());
        } else if j == 1 {
            assert(v->fields[1].0 == "angle_min"@);
            assert("angle_min"@[0] != "range_min"@[0]);
        } else if j == 2 {
            assert(v->fields[2].0 == "angle_max"@);
            assert("angle_max"@[0] != "range_min"@[0]);
        } else if j == 3 {
            assert(v->fields[3].0 == "angle_increment"@);
            assert("angle_increment"@.len() != "range_min"@.len());
        } else if j == 4 {
            assert(v->fields[4].0 == "time_increment"@);
            assert("time_increment"@.len() != "range_min"@.len());
        } else {
            assert(v->fields[5].0 == "scan_time"@);
            assert("scan_time"@[0] != "range_min"@[0]);
        }
    }
    lemma_field_named_at(v, "range_min"@, 6);
    assert forall|j: int| 0 <= j < 7 implies #[trigger] v->fields[j].0 != "range_max"@ by {
        if j == 0 {
            assert(v->fields[0].0 == "header"@);
            assert("header"@.len() != "range_max"@.len());
        } else if j == 1 {
            assert(v->fields[1].0 == "angle_min"@);
            assert("angle_min"@[0] != "range_max"@[0]);
        } else if j == 2 {
            assert(v->fields[2].0 == "angle_max"@);
            assert("angle_max"@[0] != "range_max"@[0]);
        } else if j == 3 {
            assert(v->fields[3].0 == "angle_increment"@);
            assert("angle_increment"@.len() != "range_max"@.len());
        } else if j == 4 {
            assert(v->fields[4].0 == "time_increment"@);
            assert("time_increment"@.len() != "range_max"@.len());
        } else if j == 5 {
            assert(v->fields[5].0 == "scan_time"@);
            assert("scan_time"@[0] != "range_max"@[0]);
        } else {
            assert(v->fields[6].0 == "range_min"@);
            assert("range_min"@[7] != "range_max"@[7]);
        }
    }
    lemma_field_named_at(v, "range_max"@, 7);
    assert forall|j: int| 0 <= j < 8 implies #[trigger] v->fields[j].0 != "ranges"@ by {
        if j == 0 {
            assert(v->fields[0].0 == "header"@);
            assert("header"@[0] != "ranges"@[0]);
        } else if j == 1 {
            assert(v->fields[1].0 == "angle_min"@);
            assert("angle_min"@.len() != "ranges"@.len());
        } else if j == 2 {
            assert(v->fields[2].0 == "angle_max"@);
            assert("angle_max"@.len() != "ranges"@.len());
        } else if j == 3 {
            assert(v->fields[3].0 == "angle_increment"@);
            assert("angle_increment"@.len() != "ranges"@.len());
        } else if j == 4 {
            assert(v->fields[4].0 == "time_increment"@);
            assert("time_increment"@.len() != "ranges"@.len());
        } else if j == 5 {
            assert(v->fields[5].0 == "scan_time"@);
            assert("scan_time"@.len() != "ranges"@.len());
        } else if j == 6 {
            assert(v->fields[6].0 == "range_min"@);
            assert("range_min"@.len() != "ranges"@.len());
        } else {
            assert(v->fields[7].0 == "range_max"@);
            assert("range_max"@.len() != "ranges"@.len());
        }
    }
    lemma_field_named_at(v, "ranges"@, 8);
    assert forall|j: int| 0 <= j < 9 implies #[trigger] v->fields[j].0 != "intensities"@ by {
        if j == 0 {
            assert(v->fields[0].0 == "header"@);
            assert("header"@.len() != "intensities"@.len());
        } else if j == 1 {
            assert(v->fields[1].0 == "angle_min"@);
            assert("angle_min"@.len() != "intensities"@.len());
        } else if j == 2 {
            assert(v->fields[2].0 == "angle_max"@);
            assert("angle_max"@.len() != "intensities"@.len());
        } else if j == 3 {
            assert(v->fields[3].0 == "angle_increment"@);
            assert("angle_increment"@.len() != "intensities"@.len());
        } else if j == 4 {
            assert(v->fields[4].0 == "time_increment"@);
            assert("time_increment"@.len() != "intensities"@.len());
        } else if j == 5 {
            assert(v->fields[5].0 == "scan_time"@);
            assert("scan_time"@.len() != "intensities"@.len());
        } else if j == 6 {
            assert(v->fields[6].0 == "range_min"@);
            assert("range_min"@.len() != "intensities"@.len());
        } else if j == 7 {
            assert(v->fields[7].0 == "range_max"@);
            assert("range_max"@.len() != "intensities"@.len());
        } else {
            assert(v->fields[8].0 == "ranges"@);
            assert("ranges"@.len() != "intensities"@.len());
        }
    }
    lemma_field_named_at(v, "intensities"@, 9);
}


/// A joint state's tree holds the joint names and the positions, velocities
/// and efforts item by item, each under the field of the same name.
pub proof fn lemma_joint_state_fields(msg: JointState)
    ensures
        field_named(joint_state_value(msg), "name"@) matches Some(f) && holds_strings(f, msg.name@),
        field_holds_doubles(joint_state_value(msg), "position"@, msg.position@),
        field_holds_doubles(joint_state_value(msg), "velocity"@, msg.velocity@),
        field_holds_doubles(joint_state_value(msg), "effort"@, msg.effort@),
{
    reveal_strlit("header");
    reveal_strlit("name");
    reveal_strlit("position");
    reveal_strlit("velocity");
    reveal_strlit("effort");
    let v = joint_state_value(msg);
    assert forall|j: int| 0 <= j < 1 implies #[trigger] v->fields[j].0 != "name"@ by {
        {
            assert(v->fields[0].0 == "header"@);
            assert("header"@.len() != "name"@.len());
        }
    }
    lemma_field_named_at(v, "name"@, 1);
    assert forall|j: int| 0 <= j < 2 implies #[trigger] v->fields[j].0 != "position"@ by {
        if j == 0 {
            assert(v->fields[0].0 == "header"@);
            assert("header"@.len() != "position"@.len());
        } else {
            assert(v->fields[1].0 == "name"@);
            assert("name"@.len() != "position"@.len());
        }
    }
    lemma_field_named_at(v, "position"@, 2);
    assert forall|j: int| 0 <= j < 3 implies #[trigger] v->fields[j].0 != "velocity"@ by {
        if j == 0 {
            assert(v->fields[0].0 == "header"@);
            assert("header"@.len() != "velocity"@.len());
        } else if j == 1 {
            assert(v->fields[1].0 == "name"@);
            assert("name"@.len() != "velocity"@.len());
        } else {
            assert(v->fields[2].0 == "position"@);
            assert("position"@[0] != "velocity"@[0]);
        }
    }
    lemma_field_named_at(v, "velocity"@, 3);
    assert forall|j: int| 0 <= j < 4 implies #[trigger] v->fields[j].0 != "effort"@ by {
        if j == 0 {
            assert(v->fields[0].0 == "header"@);
            assert("header"@[0] != "effort"@[0]);
        } else if j == 1 {
            assert(v->fields[1].0 == "name"@);
            assert("name"@.len() != "effort"@.len());
        } else if j == 2 {
            assert(v->fields[2].0 == "position"@);
            assert("position"@.len() != "effort"@.len());
        } else {
            assert(v->fields[3].0 == "velocity"@);
            assert("velocity"@.len() != "effort"@.len());
        }
    }
    lemma_field_named_at(v, "effort"@, 4);
}


/// An IMU sample's tree holds each covariance item by item under the field of
/// the same name.
pub proof fn lemma_imu_covariance_fields(msg: Imu)
    ensures
        field_holds_doubles(imu_value(msg), "orientation_covariance"@, msg.orientation_covariance@),
        field_holds_doubles(
            imu_value(msg),
            "angular_velocity_covariance"@,
            msg.angular_velocity_covariance@,
        ),
        field_holds_doubles(
            imu_value(msg),
            "linear_acceleration_covariance"@,
            msg.linear_acceleration_covariance@,
        ),
{
    reveal_strlit("header");
    reveal_strlit("orientation");
    reveal_strlit("orientation_covariance");
    reveal_strlit("angular_velocity");
    reveal_strlit("angular_velocity_covariance");
    reveal_strlit("linear_acceleration");
    reveal_strlit("linear_acceleration_covariance");
    let v = imu_value(msg);
    assert forall|j: int| 0 <= j < 2 implies #[trigger] v->fields[j].0 != "orientation_covariance"@ by {
        if j == 0 {
            assert(v->fields[0].0 == "header"@);
            assert("header"@.len() != "orientation_covariance"@.len());
        } else {
            assert(v->fields[1].0 == "orientation"@);
            assert("orientation"@.len() != "orientation_covariance"@.len());
        }
    }
    lemma_field_named_at(v, "orientation_covariance"@, 2);
    assert forall|j: int| 0 <= j < 4 implies #[trigger] v->fields[j].0 != "angular_velocity_covariance"@ by {
        if j == 0 {
            assert(v->fields[0].0 == "header"@);
            assert("header"@.len() != "angular_velocity_covariance"@.len());
        } else if j == 1 {
            assert(v->fields[1].0 == "orientation"@);
            assert("orientation"@.len() != "angular_velocity_covariance"@.len());
        } else if j == 2 {
            assert(v->fields[2].0 == "orientation_covariance"@);
            assert("orientation_covariance"@.len() != "angular_velocity_covariance"@.len());
        } else {
            assert(v->fields[3].0 == "angular_velocity"@);
            assert("angular_velocity"@.len() != "angular_velocity_covariance"@.len());
        }
    }
    lemma_field_named_at(v, "angular_velocity_covariance"@, 4);
    assert forall|j: int| 0 <= j < 6 implies #[trigger] v->fields[j].0 != "linear_acceleration_covariance"@ by {
        if j == 0 {
            assert(v->fields[0].0 == "header"@);
            assert("header"@.len() != "linear_acceleration_covariance"@.len());
        } else if j == 1 {
            assert(v->fields[1].0 == "orientation"@);
            assert("orientation"@.len() != "linear_acceleration_covariance"@.len());
        } else if j == 2 {
            assert(v->fields[2].0 == "orientation_covariance"@);
            assert("orientation_covariance"@.len() != "linear_acceleration_covariance"@.len());
        } else if j == 3 {
            assert(v->fields[3].0 == "angular_velocity"@);
            assert("angular_velocity"@.len() != "linear_acceleration_covariance"@.len());
        } else if j == 4 {
            assert(v->fields[4].0 == "angular_velocity_covariance"@);
            assert("angular_velocity_covariance"@.len() != "linear_acceleration_covariance"@.len());
        } else {
            assert(v->fields[5].0 == "linear_acceleration"@);
            assert("linear_acceleration"@.len() != "linear_acceleration_covariance"@.len());
        }
    }
    lemma_field_named_at(v, "linear_acceleration_covariance"@, 6);
}


/// An odometry message's tree holds the pose's and the twist's covariances
/// item by item, under `pose.covariance` and `twist.covariance`.
#[verifier::rlimit(40)]
pub proof fn lemma_odometry_covariance_fields(msg: Odometry)
    ensures
        field_named(odometry_value(msg), "pose"@) matches Some(p) && field_holds_doubles(
            p,
            "covariance"@,
            msg.pose.covariance@,
        ),
        field_named(odometry_value(msg), "twist"@) matches Some(t) && field_holds_doubles(
            t,
            "covariance"@,
            msg.twist.covariance@,
        ),
{
    reveal_strlit("header");
    reveal_strlit("child_frame_id");
    reveal_strlit("pose");
    reveal_strlit("twist");
    reveal_strlit("covariance");
    let v = odometry_value(msg);
    assert forall|j: int| 0 <= j < 2 implies #[trigger] v->fields[j].0 != "pose"@ by {
        if j == 0 {
            assert(v->fields[0].0 == "header"@);
            assert("header"@.len() != "pose"@.len());
        } else {
            assert(v->fields[1].0 == "child_frame_id"@);
            assert("child_frame_id"@.len() != "pose"@.len());
        }
    }
    lemma_field_named_at(v, "pose"@, 2);
    assert forall|j: int| 0 <= j < 3 implies #[trigger] v->fields[j].0 != "twist"@ by {
        if j == 0 {
            assert(v->fields[0].0 == "header"@);
            assert("header"@.len() != "twist"@.len());
        } else if j == 1 {
            assert(v->fields[1].0 == "child_frame_id"@);
            assert("child_frame_id"@.len() != "twist"@.len());
        } else {
            assert(v->fields[2].0 == "pose"@);
            assert("pose"@.len() != "twist"@.len());
        }
    }
    lemma_field_named_at(v, "twist"@, 3);
    let p = pose_with_covariance_value(msg.pose);
    assert forall|j: int| 0 <= j < 1 implies #[trigger] p->fields[j].0 != "covariance"@ by {
        {
            assert(p->fields[0].0 == "pose"@);
            assert("pose"@.len() != "covariance"@.len());
        }
    }
    lemma_field_named_at(p, "covariance"@, 1);
    let t = twist_with_covariance_value(msg.twist);
    assert forall|j: int| 0 <= j < 1 implies #[trigger] t->fields[j].0 != "covariance"@ by {
        {
            assert(t->fields[0].0 == "twist"@);
            assert("twist"@.len() != "covariance"@.len());
        }
    }
    lemma_field_named_at(t, "covariance"@, 1);
}


/// The type tag a value is sent to ROS with is the `rcl_interfaces/msg/ParameterType`
/// constant of its type (NOT_SET 0, BOOL 1, INTEGER 2, DOUBLE 3, STRING 4,
/// BYTE_ARRAY 5, BOOL_ARRAY 6, INTEGER_ARRAY 7, DOUBLE_ARRAY 8,
/// STRING_ARRAY 9), and the value travels in the field of that type.
pub proof fn lemma_parameter_type_constants(v: ParamView)
    ensures
        v is NotSet ==> to_ros_spec(v).kind == 0,
        v matches ParamView::Bool(b) ==> to_ros_spec(v).kind == 1 && to_ros_spec(v).bool_value == b,
        v matches ParamView::Integer(i) ==> to_ros_spec(v).kind == 2 && to_ros_spec(v).integer_value
            == i,
        v matches ParamView::Double(d) ==> to_ros_spec(v).kind == 3 && to_ros_spec(v).double_value
            == d,
        v matches ParamView::String(t) ==> to_ros_spec(v).kind == 4 && to_ros_spec(v).string_value
            == t,
        v matches ParamView::ByteArray(a) ==> to_ros_spec(v).kind == 5
            && to_ros_spec(v).byte_array_value == a,
        v matches ParamView::BoolArray(a) ==> to_ros_spec(v).kind == 6
            && to_ros_spec(v).bool_array_value == a,
        v matches ParamView::IntegerArray(a) ==> to_ros_spec(v).kind == 7
            && to_ros_spec(v).integer_array_value == a,
        v matches ParamView::DoubleArray(a) ==> to_ros_spec(v).kind == 8
            && to_ros_spec(v).double_array_value == a,
        v matches ParamView::StringArray(a) ==> to_ros_spec(v).kind == 9
            && to_ros_spec(v).string_array_value == a,
{
}

/// A parameter message from a node is read by its `ParameterType` constant:
/// BOOL 1, INTEGER 2, DOUBLE 3, STRING 4, BYTE_ARRAY 5, BOOL_ARRAY 6,
/// INTEGER_ARRAY 7, DOUBLE_ARRAY 8, STRING_ARRAY 9, each from the field of
/// that type; any other tag (NOT_SET 0 among them) reads as not set.
pub proof fn lemma_parameter_type_read(m: RosParameterView)
    ensures
        m.kind == 1 ==> from_ros_spec(m) == ParamView::Bool(m.bool_value),
        m.kind == 2 ==> from_ros_spec(m) == ParamView::Integer(m.integer_value),
        m.kind == 3 ==> from_ros_spec(m) == ParamView::Double(m.double_value),
        m.kind == 4 ==> from_ros_spec(m) == ParamView::String(m.string_value),
        m.kind == 5 ==> from_ros_spec(m) == ParamView::ByteArray(m.byte_array_value),
        m.kind == 6 ==> from_ros_spec(m) == ParamView::BoolArray(m.bool_array_value),
        m.kind == 7 ==> from_ros_spec(m) == ParamView::IntegerArray(m.integer_array_value),
        m.kind == 8 ==> from_ros_spec(m) == ParamView::DoubleArray(m.double_array_value),
        m.kind == 9 ==> from_ros_spec(m) == ParamView::StringArray(m.string_array_value),
        (m.kind == 0 || m.kind > 9) ==> from_ros_spec(m) == ParamView::NotSet,
{
}

/// A time stamp's tree holds its seconds and nanoseconds under `sec` and
/// `nanosec`.
pub proof fn lemma_time_fields(t: Time)
    ensures
        field_named(time_value(t), "sec"@) == Some(DynView::I32(t.sec)),
        field_named(time_value(t), "nanosec"@) == Some(DynView::U32(t.nanosec)),
{
    reveal_strlit("sec");
    reveal_strlit("nanosec");
    let v = time_value(t);
    lemma_field_named_at(v, "sec"@, 0);
    assert forall|j: int| 0 <= j < 1 implies #[trigger] v->fields[j].0 != "nanosec"@ by {
        {
            assert(v->fields[0].0 == "sec"@);
            assert("sec"@.len() != "nanosec"@.len());
        }
    }
    lemma_field_named_at(v, "nanosec"@, 1);
}

/// A header's tree holds its frame under `frame_id` and its stamp's seconds
/// and nanoseconds under `stamp`.
pub proof fn lemma_header_fields(h: Header)
    ensures
        field_named(header_value(h), "frame_id"@) == Some(DynView::String(h.frame_id@)),
        field_named(header_value(h), "stamp"@) matches Some(st) && field_named(st, "sec"@) == Some(
            DynView::I32(h.stamp.sec),
        ) && field_named(st, "nanosec"@) == Some(DynView::U32(h.stamp.nanosec)),
{
    reveal_strlit("stamp");
    reveal_strlit("frame_id");
    let v = header_value(h);
    lemma_field_named_at(v, "stamp"@, 0);
    assert forall|j: int| 0 <= j < 1 implies #[trigger] v->fields[j].0 != "frame_id"@ by {
        {
            assert(v->fields[0].0 == "stamp"@);
            assert("stamp"@.len() != "frame_id"@.len());
        }
    }
    lemma_field_named_at(v, "frame_id"@, 1);
    lemma_time_fields(h.stamp);
}

/// A vector's tree holds its coordinates under `x`, `y` and `z`.
pub proof fn lemma_vector3_fields(w: Vector3)
    ensures
        field_named(vector3_value(w), "x"@) == Some(DynView::F64(w.x)),
        field_named(vector3_value(w), "y"@) == Some(DynView::F64(w.y)),
        field_named(vector3_value(w), "z"@) == Some(DynView::F64(w.z)),
{
    reveal_strlit("x");
    reveal_strlit("y");
    reveal_strlit("z");
    let v = vector3_value(w);
    lemma_field_named_at(v, "x"@, 0);
    assert forall|j: int| 0 <= j < 1 implies #[trigger] v->fields[j].0 != "y"@ by {
        {
            assert(v->fields[0].0 == "x"@);
            assert("x"@[0] != "y"@[0]);
        }
    }
    lemma_field_named_at(v, "y"@, 1);
    assert forall|j: int| 0 <= j < 2 implies #[trigger] v->fields[j].0 != "z"@ by {
        if j == 0 {
            assert(v->fields[0].0 == "x"@);
            assert("x"@[0] != "z"@[0]);
        } else {
            assert(v->fields[1].0 == "y"@);
            assert("y"@[0] != "z"@[0]);
        }
    }
    lemma_field_named_at(v, "z"@, 2);
}

/// A point's tree holds its coordinates under `x`, `y` and `z`.
pub proof fn lemma_point_fields(w: Point)
    ensures
        field_named(point_value(w), "x"@) == Some(DynView::F64(w.x)),
        field_named(point_value(w), "y"@) == Some(DynView::F64(w.y)),
        field_named(point_value(w), "z"@) == Some(DynView::F64(w.z)),
{
    reveal_strlit("x");
    reveal_strlit("y");
    reveal_strlit("z");
    let v = point_value(w);
    lemma_field_named_at(v, "x"@, 0);
    assert forall|j: int| 0 <= j < 1 implies #[trigger] v->fields[j].0 != "y"@ by {
        {
            assert(v->fields[0].0 == "x"@);
            assert("x"@[0] != "y"@[0]);
        }
    }
    lemma_field_named_at(v, "y"@, 1);
    assert forall|j: int| 0 <= j < 2 implies #[trigger] v->fields[j].0 != "z"@ by {
        if j == 0 {
            assert(v->fields[0].0 == "x"@);
            assert("x"@[0] != "z"@[0]);
        } else {
            assert(v->fields[1].0 == "y"@);
            assert("y"@[0] != "z"@[0]);
        }
    }
    lemma_field_named_at(v, "z"@, 2);
}

/// A quaternion's tree holds its components under `x`, `y`, `z` and `w`.
pub proof fn lemma_quaternion_fields(q: Quaternion)
    ensures
        field_named(quaternion_value(q), "x"@) == Some(DynView::F64(q.x)),
        field_named(quaternion_value(q), "y"@) == Some(DynView::F64(q.y)),
        field_named(quaternion_value(q), "z"@) == Some(DynView::F64(q.z)),
        field_named(quaternion_value(q), "w"@) == Some(DynView::F64(q.w)),
{
    reveal_strlit("x");
    reveal_strlit("y");
    reveal_strlit("z");
    reveal_strlit("w");
    let v = quaternion_value(q);
    lemma_field_named_at(v, "x"@, 0);
    assert forall|j: int| 0 <= j < 1 implies #[trigger] v->fields[j].0 != "y"@ by {
        {
            assert(v->fields[0].0 == "x"@);
            assert("x"@[0] != "y"@[0]);
        }
    }
    lemma_field_named_at(v, "y"@, 1);
    assert forall|j: int| 0 <= j < 2 implies #[trigger] v->fields[j].0 != "z"@ by {
        if j == 0 {
            assert(v->fields[0].0 == "x"@);
            assert("x"@[0] != "z"@[0]);
        } else {
            assert(v->fields[1].0 == "y"@);
            assert("y"@[0] != "z"@[0]);
        }
    }
    lemma_field_named_at(v, "z"@, 2);
    assert forall|j: int| 0 <= j < 3 implies #[trigger] v->fields[j].0 != "w"@ by {
        if j == 0 {
            assert(v->fields[0].0 == "x"@);
            assert("x"@[0] != "w"@[0]);
        } else if j == 1 {
            assert(v->fields[1].0 == "y"@);
            assert("y"@[0] != "w"@[0]);
        } else {
            assert(v->fields[2].0 == "z"@);
            assert("z"@[0] != "w"@[0]);
        }
    }
    lemma_field_named_at(v, "w"@, 3);
}

/// A twist's tree holds its linear velocity under `linear` and its angular
/// velocity under `angular`, each as `x`, `y`, `z`.
pub proof fn lemma_twist_fields(t: Twist)
    ensures
        field_named(twist_value(t), "linear"@) matches Some(l) && field_named(l, "x"@) == Some(
            DynView::F64(t.linear.x),
        ) && field_named(l, "y"@) == Some(DynView::F64(t.linear.y)) && field_named(l, "z"@)
            == Some(DynView::F64(t.linear.z)),
        field_named(twist_value(t), "angular"@) matches Some(a) && field_named(a, "x"@) == Some(
            DynView::F64(t.angular.x),
        ) && field_named(a, "y"@) == Some(DynView::F64(t.angular.y)) && field_named(a, "z"@)
            == Some(DynView::F64(t.angular.z)),
{
    reveal_strlit("linear");
    reveal_strlit("angular");
    let v = twist_value(t);
    lemma_field_named_at(v, "linear"@, 0);
    assert forall|j: int| 0 <= j < 1 implies #[trigger] v->fields[j].0 != "angular"@ by {
        {
            assert(v->fields[0].0 == "linear"@);
            assert("linear"@.len() != "angular"@.len());
        }
    }
    lemma_field_named_at(v, "angular"@, 1);
    lemma_vector3_fields(t.linear);
    lemma_vector3_fields(t.angular);
}

/// A pose's tree holds its position under `position` and its orientation
/// under `orientation`, coordinate by coordinate.
pub proof fn lemma_pose_fields(p: Pose)
    ensures
        field_named(pose_value(p), "position"@) matches Some(l) && field_named(l, "x"@) == Some(
            DynView::F64(p.position.x),
        ) && field_named(l, "y"@) == Some(DynView::F64(p.position.y)) && field_named(l, "z"@)
            == Some(DynView::F64(p.position.z)),
        field_named(pose_value(p), "orientation"@) matches Some(o) && field_named(o, "x"@) == Some(
            DynView::F64(p.orientation.x),
        ) && field_named(o, "y"@) == Some(DynView::F64(p.orientation.y)) && field_named(o, "z"@)
            == Some(DynView::F64(p.orientation.z)) && field_named(o, "w"@) == Some(
            DynView::F64(p.orientation.w),
        ),
{
    reveal_strlit("position");
    reveal_strlit("orientation");
    let v = pose_value(p);
    lemma_field_named_at(v, "position"@, 0);
    assert forall|j: int| 0 <= j < 1 implies #[trigger] v->fields[j].0 != "orientation"@ by {
        {
            assert(v->fields[0].0 == "position"@);
            assert("position"@.len() != "orientation"@.len());
        }
    }
    lemma_field_named_at(v, "orientation"@, 1);
    lemma_point_fields(p.position);
    lemma_quaternion_fields(p.orientation);
}

/// A log message's tree holds each of its fields under the field of the
/// same name, and its level as the name of the ROS severity: 10 `DEBUG`,
/// 20 `INFO`, 30 `WARN`, 40 `ERROR`, 50 `FATAL`, any other `UNKNOWN`.
#[verifier::rlimit(40)]
pub proof fn lemma_log_fields(m: Log)
    ensures
        field_named(log_value(m), "stamp"@) matches Some(st) && field_named(st, "sec"@) == Some(
            DynView::I32(m.stamp.sec),
        ) && field_named(st, "nanosec"@) == Some(DynView::U32(m.stamp.nanosec)),
        field_named(log_value(m), "name"@) == Some(DynView::String(m.name@)),
        field_named(log_value(m), "msg"@) == Some(DynView::String(m.msg@)),
        field_named(log_value(m), "file"@) == Some(DynView::String(m.file@)),
        field_named(log_value(m), "function"@) == Some(DynView::String(m.function@)),
        field_named(log_value(m), "line"@) == Some(DynView::U32(m.line)),
        m.level == 10 ==> field_named(log_value(m), "level"@) == Some(DynView::String("DEBUG"@)),
        m.level == 20 ==> field_named(log_value(m), "level"@) == Some(DynView::String("INFO"@)),
        m.level == 30 ==> field_named(log_value(m), "level"@) == Some(DynView::String("WARN"@)),
        m.level == 40 ==> field_named(log_value(m), "level"@) == Some(DynView::String("ERROR"@)),
        m.level == 50 ==> field_named(log_value(m), "level"@) == Some(DynView::String("FATAL"@)),
        !(m.level == 10 || m.level == 20 || m.level == 30 || m.level == 40 || m.level == 50)
            ==> field_named(log_value(m), "level"@) == Some(DynView::String("UNKNOWN"@)),
{
    reveal_strlit("stamp");
    reveal_strlit("level");
    reveal_strlit("name");
    reveal_strlit("msg");
    reveal_strlit("file");
    reveal_strlit("function");
    reveal_strlit("line");
    let v = log_value(m);
    lemma_field_named_at(v, "stamp"@, 0);
    assert forall|j: int| 0 <= j < 1 implies #[trigger] v->fields[j].0 != "level"@ by {
        {
            assert(v->fields[0].0 == "stamp"@);
            assert("stamp"@[0] != "level"@[0]);
        }
    }
    lemma_field_named_at(v, "level"@, 1);
    assert forall|j: int| 0 <= j < 2 implies #[trigger] v->fields[j].0 != "name"@ by {
        if j == 0 {
            assert(v->fields[0].0 == "stamp"@);
            assert("stamp"@.len() != "name"@.len());
        } else {
            assert(v->fields[1].0 == "level"@);
            assert("level"@.len() != "name"@.len());
        }
    }
    lemma_field_named_at(v, "name"@, 2);
    assert forall|j: int| 0 <= j < 3 implies #[trigger] v->fields[j].0 != "msg"@ by {
        if j == 0 {
            assert(v->fields[0].0 == "stamp"@);
            assert("stamp"@.len() != "msg"@.len());
        } else if j == 1 {
            assert(v->fields[1].0 == "level"@);
            assert("level"@.len() != "msg"@.len());
        } else {
            assert(v->fields[2].0 == "name"@);
            assert("name"@.len() != "msg"@.len());
        }
    }
    lemma_field_named_at(v, "msg"@, 3);
    assert forall|j: int| 0 <= j < 4 implies #[trigger] v->fields[j].0 != "file"@ by {
        if j == 0 {
            assert(v->fields[0].0 == "stamp"@);
            assert("stamp"@.len() != "file"@.len());
        } else if j == 1 {
            assert(v->fields[1].0 == "level"@);
            assert("level"@.len() != "file"@.len());
        } else if j == 2 {
            assert(v->fields[2].0 == "name"@);
            assert("name"@[0] != "file"@[0]);
        } else {
            assert(v->fields[3].0 == "msg"@);
            assert("msg"@.len() != "file"@.len());
        }
    }
    lemma_field_named_at(v, "file"@, 4);
    assert forall|j: int| 0 <= j < 5 implies #[trigger] v->fields[j].0 != "function"@ by {
        if j == 0 {
            assert(v->fields[0].0 == "stamp"@);
            assert("stamp"@.len() != "function"@.len());
        } else if j == 1 {
            assert(v->fields[1].0 == "level"@);
            assert("level"@.len() != "function"@.len());
        } else if j == 2 {
            assert(v->fields[2].0 == "name"@);
            assert("name"@.len() != "function"@.len());
        } else if j == 3 {
            assert(v->fields[3].0 == "msg"@);
            assert("msg"@.len() != "function"@.len());
        } else {
            assert(v->fields[4].0 == "file"@);
            assert("file"@.len() != "function"@.len());
        }
    }
    lemma_field_named_at(v, "function"@, 5);
    assert forall|j: int| 0 <= j < 6 implies #[trigger] v->fields[j].0 != "line"@ by {
        if j == 0 {
            assert(v->fields[0].0 == "stamp"@);
            assert("stamp"@.len() != "line"@.len());
        } else if j == 1 {
            assert(v->fields[1].0 == "level"@);
            assert("level"@.len() != "line"@.len());
        } else if j == 2 {
            assert(v->fields[2].0 == "name"@);
            assert("name"@[0] != "line"@[0]);
        } else if j == 3 {
            assert(v->fields[3].0 == "msg"@);
            assert("msg"@.len() != "line"@.len());
        } else if j == 4 {
            assert(v->fields[4].0 == "file"@);
            assert("file"@[0] != "line"@[0]);
        } else {
            assert(v->fields[5].0 == "function"@);
            assert("function"@.len() != "line"@.len());
        }
    }
    lemma_field_named_at(v, "line"@, 6);
    lemma_time_fields(m.stamp);
}

/// An odometry message's tree holds its header's frame and its child frame
/// under `header.frame_id` and `child_frame_id`.
pub proof fn lemma_odometry_frames(msg: Odometry)
    ensures
        field_named(odometry_value(msg), "child_frame_id"@) == Some(
            DynView::String(msg.child_frame_id@),
        ),
        field_named(odometry_value(msg), "header"@) matches Some(h) && field_named(h, "frame_id"@)
            == Some(DynView::String(msg.header.frame_id@)),
{
    reveal_strlit("header");
    reveal_strlit("child_frame_id");
    reveal_strlit("pose");
    reveal_strlit("twist");
    let v = odometry_value(msg);
    lemma_field_named_at(v, "header"@, 0);
    assert forall|j: int| 0 <= j < 1 implies #[trigger] v->fields[j].0 != "child_frame_id"@ by {
        {
            assert(v->fields[0].0 == "header"@);
            assert("header"@.len() != "child_frame_id"@.len());
        }
    }
    lemma_field_named_at(v, "child_frame_id"@, 1);
    lemma_header_fields(msg.header);
}

/// An IMU sample's tree holds its orientation under `orientation` (`x`, `y`,
/// `z`, `w`), and its angular velocity and linear acceleration under the
/// fields of those names (`x`, `y`, `z`).
#[verifier::rlimit(40)]
pub proof fn lemma_imu_vector_fields(msg: Imu)
    ensures
        field_named(imu_value(msg), "orientation"@) matches Some(o) && field_named(o, "x"@) == Some(
            DynView::F64(msg.orientation.x),
        ) && field_named(o, "y"@) == Some(DynView::F64(msg.orientation.y)) && field_named(o, "z"@)
            == Some(DynView::F64(msg.orientation.z)) && field_named(o, "w"@) == Some(
            DynView::F64(msg.orientation.w),
        ),
        field_named(imu_value(msg), "angular_velocity"@) matches Some(a) && field_named(a, "x"@)
            == Some(DynView::F64(msg.angular_velocity.x)) && field_named(a, "y"@) == Some(
            DynView::F64(msg.angular_velocity.y),
        ) && field_named(a, "z"@) == Some(DynView::F64(msg.angular_velocity.z)),
        field_named(imu_value(msg), "linear_acceleration"@) matches Some(l) && field_named(l, "x"@)
            == Some(DynView::F64(msg.linear_acceleration.x)) && field_named(l, "y"@) == Some(
            DynView::F64(msg.linear_acceleration.y),
        ) && field_named(l, "z"@) == Some(DynView::F64(msg.linear_acceleration.z)),
{
    reveal_strlit("header");
    reveal_strlit("orientation");
    reveal_strlit("orientation_covariance");
    reveal_strlit("angular_velocity");
    reveal_strlit("angular_velocity_covariance");
    reveal_strlit("linear_acceleration");
    reveal_strlit("linear_acceleration_covariance");
    let v = imu_value(msg);
    assert forall|j: int| 0 <= j < 1 implies #[trigger] v->fields[j].0 != "orientation"@ by {
        {
            assert(v->fields[0].0 == "header"@);
            assert("header"@.len() != "orientation"@.len());
        }
    }
    lemma_field_named_at(v, "orientation"@, 1);
    assert forall|j: int| 0 <= j < 3 implies #[trigger] v->fields[j].0 != "angular_velocity"@ by {
        if j == 0 {
            assert(v->fields[0].0 == "header"@);
            assert("header"@.len() != "angular_velocity"@.len());
        } else if j == 1 {
            assert(v->fields[1].0 == "orientation"@);
            assert("orientation"@.len() != "angular_velocity"@.len());
        } else {
            assert(v->fields[2].0 == "orientation_covariance"@);
            assert("orientation_covariance"@.len() != "angular_velocity"@.len());
        }
    }
    lemma_field_named_at(v, "angular_velocity"@, 3);
    assert forall|j: int| 0 <= j < 5 implies #[trigger] v->fields[j].0 != "linear_acceleration"@ by {
        if j == 0 {
            assert(v->fields[0].0 == "header"@);
            assert("header"@.len() != "linear_acceleration"@.len());
        } else if j == 1 {
            assert(v->fields[1].0 == "orientation"@);
            assert("orientation"@.len() != "linear_acceleration"@.len());
        } else if j == 2 {
            assert(v->fields[2].0 == "orientation_covariance"@);
            assert("orientation_covariance"@.len() != "linear_acceleration"@.len());
        } else if j == 3 {
            assert(v->fields[3].0 == "angular_velocity"@);
            assert("angular_velocity"@.len() != "linear_acceleration"@.len());
        } else {
            assert(v->fields[4].0 == "angular_velocity_covariance"@);
            assert("angular_velocity_covariance"@.len() != "linear_acceleration"@.len());
        }
    }
    lemma_field_named_at(v, "linear_acceleration"@, 5);
    lemma_quaternion_fields(msg.orientation);
    lemma_vector3_fields(msg.angular_velocity);
    lemma_vector3_fields(msg.linear_acceleration);
}

/// A stamped pose's tree holds its header's frame under `header.frame_id`
/// and its pose's position and orientation under `pose`.
pub proof fn lemma_pose_stamped_fields(msg: PoseStamped)
    ensures
        field_named(pose_stamped_value(msg), "header"@) matches Some(h) && field_named(
            h,
            "frame_id"@,
        ) == Some(DynView::String(msg.header.frame_id@)),
        field_named(pose_stamped_value(msg), "pose"@) == Some(pose_value(msg.pose)),
{
    reveal_strlit("header");
    reveal_strlit("pose");
    let v = pose_stamped_value(msg);
    lemma_field_named_at(v, "header"@, 0);
    assert forall|j: int| 0 <= j < 1 implies #[trigger] v->fields[j].0 != "pose"@ by {
        {
            assert(v->fields[0].0 == "header"@);
            assert("header"@.len() != "pose"@.len());
        }
    }
    lemma_field_named_at(v, "pose"@, 1);
    lemma_header_fields(msg.header);
}

} // verus!
