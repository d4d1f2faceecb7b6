//! Values carried by protocol messages. Floating-point quantities are held
//! as their IEEE 754 bit patterns (`f32::to_bits`, `f64::to_bits`), which is
//! also how they travel on the wire.
use vstd::prelude::*;

verus! {

/// A topic the agent confirmed, with its message type.
#[derive(Debug, Clone, PartialEq)]
pub struct TopicSub {
    pub topic: String,
    pub msg_type: String,
}

/// One sample of a topic: its stamp and its data.
#[derive(Debug, PartialEq)]
pub struct TopicFrame {
    pub stamp: Timestamp,
    pub data: DynValue,
}

/// The first frame of a per-topic data stream.
#[derive(Debug, Clone, PartialEq)]
pub struct StreamHeader {
    pub topic: String,
    pub msg_type: String,
}

/// A message of any type as a tree of plain values.
#[derive(Debug, PartialEq)]
pub enum DynValue {
    Bool(bool),
    I8(i8),
    I16(i16),
    I32(i32),
    I64(i64),
    U8(u8),
    U16(u16),
    U32(u32),
    U64(u64),
    /// An `f32`, as its bit pattern.
    F32(u32),
    /// An `f64`, as its bit pattern.
    F64(u64),
    String(String),
    Bytes(Vec<u8>),
    Array(Vec<DynValue>),
    Struct { struct_type: String, fields: Vec<(String, DynValue)> },
}

/// The mathematical form of a `DynValue`: strings as char sequences, lists as
/// sequences.
#[verifier::ext_equal]
pub enum DynView {
    Bool(bool),
    I8(i8),
    I16(i16),
    I32(i32),
    I64(i64),
    U8(u8),
    U16(u16),
    U32(u32),
    U64(u64),
    F32(u32),
    F64(u64),
    String(Seq<char>),
    Bytes(Seq<u8>),
    Array(Seq<DynView>),
    Struct { struct_type: Seq<char>, fields: Seq<(Seq<char>, DynView)> },
}

impl View for DynValue {
    type V = DynView;

    open spec fn view(&self) -> DynView
        decreases self,
    {
        match self {
            DynValue::Bool(v) => DynView::Bool(*v),
            DynValue::I8(v) => DynView::I8(*v),
            DynValue::I16(v) => DynView::I16(*v),
            DynValue::I32(v) => DynView::I32(*v),
            DynValue::I64(v) => DynView::I64(*v),
            DynValue::U8(v) => DynView::U8(*v),
            DynValue::U16(v) => DynView::U16(*v),
            DynValue::U32(v) => DynView::U32(*v),
            DynValue::U64(v) => DynView::U64(*v),
            DynValue::F32(v) => DynView::F32(*v),
            DynValue::F64(v) => DynView::F64(*v),
            DynValue::String(s) => DynView::String(s@),
            DynValue::Bytes(b) => DynView::Bytes(b@),
            DynValue::Array(items) => DynView::Array(
                Seq::new(
                    items@.len(),
                    |i: int|
                        if 0 <= i < items@.len() {
                            items@[i].view()
                        } else {
                            DynView::Bool(false)
                        },
                ),
            ),
            DynValue::Struct { struct_type, fields } => DynView::Struct {
                struct_type: struct_type@,
                fields: Seq::new(
                    fields@.len(),
                    |i: int|
                        if 0 <= i < fields@.len() {
                            (fields@[i].0@, fields@[i].1.view())
                        } else {
                            (Seq::empty(), DynView::Bool(false))
                        },
                ),
            },
        }
    }
}

/// The view of a list of values is the list of their views.
pub proof fn lemma_array_view(items: Vec<DynValue>)
    ensures
        DynValue::Array(items)@ == DynView::Array(items@.map_values(|v: DynValue| v@)),
{
    reveal_with_fuel(<DynValue as View>::view, 2);
    let s = DynValue::Array(items)@->Array_0;
    let m = items@.map_values(|v: DynValue| v@);
    assert(s.len() == m.len());
    assert forall|i: int| 0 <= i < s.len() implies s[i] == m[i] by {}
    assert(s =~= m);
}

/// The view of a struct value: its type name and its fields, each viewed.
pub proof fn lemma_struct_view(struct_type: String, fields: Vec<(String, DynValue)>)
    ensures
        (DynValue::Struct { struct_type, fields })@ == (DynView::Struct {
            struct_type: struct_type@,
            fields: fields@.map_values(|f: (String, DynValue)| (f.0@, f.1@)),
        }),
{
    reveal_with_fuel(<DynValue as View>::view, 2);
    let s = (DynValue::Struct { struct_type, fields })@->fields;
    let m = fields@.map_values(|f: (String, DynValue)| (f.0@, f.1@));
    assert(s.len() == m.len());
    assert forall|i: int| 0 <= i < s.len() implies s[i] == m[i] by {}
    assert(s =~= m);
}

/// The view of a value that holds no other values.
pub proof fn lemma_leaf_view(v: DynValue)
    ensures
        match v {
            DynValue::Bool(x) => v@ == DynView::Bool(x),
            DynValue::I8(x) => v@ == DynView::I8(x),
            DynValue::I16(x) => v@ == DynView::I16(x),
            DynValue::I32(x) => v@ == DynView::I32(x),
            DynValue::I64(x) => v@ == DynView::I64(x),
            DynValue::U8(x) => v@ == DynView::U8(x),
            DynValue::U16(x) => v@ == DynView::U16(x),
            DynValue::U32(x) => v@ == DynView::U32(x),
            DynValue::U64(x) => v@ == DynView::U64(x),
            DynValue::F32(x) => v@ == DynView::F32(x),
            DynValue::F64(x) => v@ == DynView::F64(x),
            DynValue::String(x) => v@ == DynView::String(x@),
            DynValue::Bytes(x) => v@ == DynView::Bytes(x@),
            _ => true,
        },
{
    reveal_with_fuel(<DynValue as View>::view, 2);
}

/// A ROS time stamp.
#[derive(Debug, Clone, Copy, PartialEq, Eq)]
pub struct Timestamp {
    pub sec: i32,
    pub nanosec: u32,
}

/// A topic of the ROS graph with its type(s) and endpoint counts.
#[derive(Debug, Clone, PartialEq)]
pub struct TopicInfo {
    pub name: String,
    pub msg_type: String,
    pub publisher_count: usize,
    pub subscriber_count: usize,
}

/// A node of the ROS graph with the names it publishes, subscribes and serves.
#[derive(Debug, Clone, PartialEq)]
pub struct NodeInfo {
    pub name: String,
    pub namespace: String,
    pub publishers: Vec<String>,
    pub subscribers: Vec<String>,
    pub services: Vec<String>,
}

/// A movable joint of the robot description.
#[derive(Debug, Clone, PartialEq)]
pub struct JointInfo {
    pub name: String,
    pub joint_type: JointType,
    pub parent_link: String,
    pub child_link: String,
    pub limits: Option<JointLimits>,
}

#[derive(Debug, Clone, Copy, PartialEq, Eq)]
pub enum JointType {
    Revolute,
    Prismatic,
    Continuous,
    Fixed,
    Floating,
    Planar,
}

/// Joint limits, each an `f64` bit pattern.
#[derive(Debug, Clone, Copy, PartialEq, Eq)]
pub struct JointLimits {
    pub lower: u64,
    pub upper: u64,
    pub effort: u64,
    pub velocity: u64,
}

/// A named pose: joint names with target positions (`f64` bit patterns).
#[derive(Debug, Clone, PartialEq)]
pub struct PoseInfo {
    pub name: String,
    pub positions: Vec<(String, u64)>,
}

/// Agent-side statistics of one bridged topic; the rates are `f64` bit
/// patterns.
#[derive(Debug, Clone, PartialEq)]
pub struct TopicStats {
    pub topic: String,
    pub rate_hz: u64,
    pub bandwidth_bps: u64,
    pub latency_ms: Option<u64>,
}

#[derive(Debug, Clone, Copy, PartialEq, Eq)]
pub enum Reliability {
    SystemDefault,
    Reliable,
    BestEffort,
    BestAvailable,
}

#[derive(Debug, Clone, Copy, PartialEq, Eq)]
pub enum Durability {
    SystemDefault,
    TransientLocal,
    Volatile,
    BestAvailable,
}

#[derive(Debug, Clone, Copy, PartialEq, Eq)]
pub enum History {
    SystemDefault { depth: u32 },
    KeepLast { depth: u32 },
    KeepAll,
}

/// The QoS of a publisher or subscription; the deadline is an `f64` bit
/// pattern of milliseconds, absent when infinite.
#[derive(Debug, Clone, Copy, PartialEq, Eq)]
pub struct QosInfo {
    pub reliability: Reliability,
    pub durability: Durability,
    pub history: History,
    pub deadline_ms: Option<u64>,
}

/// A publisher or subscription of a topic.
#[derive(Debug, Clone, PartialEq)]
pub struct EndpointInfo {
    pub node_name: String,
    pub node_namespace: String,
    pub topic_type: String,
    pub qos: QosInfo,
}

/// The name of a ROS logger severity level (`rcl_interfaces/msg/Log`
/// levels; 0 is "unset").
pub open spec fn logger_level_name_spec(level: u32) -> Option<Seq<char>> {
    if level == 0 {
        Some("unset"@)
    } else if level == 10 {
        Some("debug"@)
    } else if level == 20 {
        Some("info"@)
    } else if level == 30 {
        Some("warn"@)
    } else if level == 40 {
        Some("error"@)
    } else if level == 50 {
        Some("fatal"@)
    } else {
        None
    }
}

/// The name of a logger severity level, if it is one of the ROS levels.
pub fn logger_level_name(level: u32) -> (r: Option<&'static str>)
    ensures
        match logger_level_name_spec(level) {
            Some(n) => r is Some && r->0@ == n,
            None => r is None,
        },
{
    if level == 0 {
        Some("unset")
    } else if level == 10 {
        Some("debug")
    } else if level == 20 {
        Some("info")
    } else if level == 30 {
        Some("warn")
    } else if level == 40 {
        Some("error")
    } else if level == 50 {
        Some("fatal")
    } else {
        None
    }
}

} // verus!
