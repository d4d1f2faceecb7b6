//! The movable joints of a robot description (URDF).
use vstd::prelude::*;

use crate::error::Error;
use crate::protocol::types::{JointInfo, JointLimits, JointType};
use crate::text::concat2;

verus! {

/// The kind of a URDF joint, as the description gives it.
#[derive(Debug, Clone, Copy, PartialEq, Eq)]
pub enum UrdfJointKind {
    Revolute,
    Continuous,
    Prismatic,
    Fixed,
    Floating,
    Planar,
    Spherical,
}

/// A joint as the URDF reader gives it; the limits are `f64` bit patterns
/// (zero where the description gives none, velocity aside).
#[derive(Debug, Clone, PartialEq)]
pub struct UrdfJoint {
    pub name: String,
    pub kind: UrdfJointKind,
    pub parent: String,
    pub child: String,
    pub lower: u64,
    pub upper: u64,
    pub effort: u64,
    pub velocity: u64,
}

/// A URDF joint with its names as sequences of chars.
pub struct UrdfJointView {
    pub name: Seq<char>,
    pub kind: UrdfJointKind,
    pub parent: Seq<char>,
    pub child: Seq<char>,
    pub lower: u64,
    pub upper: u64,
    pub effort: u64,
    pub velocity: u64,
}

impl View for UrdfJoint {
    type V = UrdfJointView;

    open spec fn view(&self) -> UrdfJointView {
        UrdfJointView {
            name: self.name@,
            kind: self.kind,
            parent: self.parent@,
            child: self.child@,
            lower: self.lower,
            upper: self.upper,
            effort: self.effort,
            velocity: self.velocity,
        }
    }
}

/// What the URDF reader makes of a document: its joints in document order,
/// or the reader's error message.
pub uninterp spec fn urdf_reading(xml: Seq<char>) -> Result<Seq<UrdfJointView>, Seq<char>>;

/// A reader's result as plain values.
pub open spec fn reading_view(r: Result<Vec<UrdfJoint>, String>) -> Result<Seq<UrdfJointView>, Seq<char>> {
    match r {
        Ok(v) => Ok(v@.map_values(|j: UrdfJoint| j@)),
        Err(e) => Err(e@),
    }
}

/// `urdf_rs::read_from_string`: reads a URDF document. Its result (the
/// robot's joints, or the error's message) depends on the text alone, and is
/// named, not stated; each joint keeps its name, type, parent and child link
/// and limit values.
#[verifier::external_body]
fn read_urdf(xml: &str) -> (r: Result<Vec<UrdfJoint>, String>)
    ensures
        reading_view(r) == urdf_reading(xml@),
{
    let robot = urdf_rs::read_from_string(xml).map_err(|e| e.to_string())?;
    Ok(robot.joints.into_iter().map(|j| UrdfJoint {
        kind: match j.joint_type {
            urdf_rs::JointType::Revolute => UrdfJointKind::Revolute,
            urdf_rs::JointType::Continuous => UrdfJointKind::Continuous,
            urdf_rs::JointType::Prismatic => UrdfJointKind::Prismatic,
            urdf_rs::JointType::Fixed => UrdfJointKind::Fixed,
            urdf_rs::JointType::Floating => UrdfJointKind::Floating,
            urdf_rs::JointType::Planar => UrdfJointKind::Planar,
            urdf_rs::JointType::Spherical => UrdfJointKind::Spherical,
        },
        name: j.name, parent: j.parent.link, child: j.child.link,
        lower: j.limit.lower.to_bits(), upper: j.limit.upper.to_bits(),
        effort: j.limit.effort.to_bits(), velocity: j.limit.velocity.to_bits(),
    }).collect())
}

/// `x == 0.0` for the `f64` with bits `x`: positive or negative zero.
pub open spec fn is_zero_bits(x: u64) -> bool {
    x == 0 || x == 0x8000_0000_0000_0000
}

/// The joint type shown for a movable URDF joint (a spherical joint is shown
/// as revolute, an approximation).
pub open spec fn joint_type_of(k: UrdfJointKind) -> JointType {
    match k {
        UrdfJointKind::Revolute => JointType::Revolute,
        UrdfJointKind::Prismatic => JointType::Prismatic,
        UrdfJointKind::Continuous => JointType::Continuous,
        UrdfJointKind::Floating => JointType::Floating,
        UrdfJointKind::Planar => JointType::Planar,
        UrdfJointKind::Spherical => JointType::Revolute,
        UrdfJointKind::Fixed => JointType::Fixed,
    }
}

/// The limits shown for a joint: none when lower, upper and effort are all
/// zero (the description gave no limits), all four values otherwise.
pub open spec fn limits_of(j: UrdfJointView) -> Option<JointLimits> {
    if is_zero_bits(j.lower) && is_zero_bits(j.upper) && is_zero_bits(j.effort) {
        None
    } else {
        Some(JointLimits { lower: j.lower, upper: j.upper, effort: j.effort, velocity: j.velocity })
    }
}

/// `e` is the joint entry shown for the URDF joint `j`.
pub open spec fn joint_entry(e: JointInfo, j: UrdfJointView) -> bool {
    &&& e.name@ == j.name
    &&& e.joint_type == joint_type_of(j.kind)
    &&& e.parent_link@ == j.parent
    &&& e.child_link@ == j.child
    &&& e.limits == limits_of(j)
}

/// The movable joints of `joints`: those that are not fixed, in order.
pub open spec fn movable(joints: Seq<UrdfJointView>) -> Seq<UrdfJointView> {
    joints.filter(|j: UrdfJointView| j.kind != UrdfJointKind::Fixed)
}

/// `list` shows the movable joints of `joints`, one entry each, in order.
pub open spec fn shows_joints(list: Seq<JointInfo>, joints: Seq<UrdfJointView>) -> bool {
    &&& list.len() == movable(joints).len()
    &&& forall|i: int| 0 <= i < list.len() ==> #[trigger] joint_entry(list[i], movable(joints)[i])
}

/// The joint entries for the movable joints of a description's joints.
pub fn joints_from(joints: Vec<UrdfJoint>) -> (r: Vec<JointInfo>)
    ensures
        shows_joints(r@, joints@.map_values(|j: UrdfJoint| j@)),
{
    let ghost all = joints@.map_values(|j: UrdfJoint| j@);
    let mut r: Vec<JointInfo> = Vec::new();
    let mut rest = joints;
    let ghost mut done: Seq<UrdfJointView> = Seq::empty();
    while rest.len() > 0
        invariant
            done + rest@.map_values(|j: UrdfJoint| j@) == all,
            shows_joints(r@, done),
        decreases rest@.len(),
    {
        let ghost before_rest = rest@;
        let j = rest.remove(0);
        proof {
            assert(rest@ =~= before_rest.drop_first());
            assert(done.push(j@) + rest@.map_values(|j: UrdfJoint| j@) =~= done + before_rest.map_values(
                |j: UrdfJoint| j@,
            ));
        }
        let kind = match j.kind {
            UrdfJointKind::Fixed => None,
            UrdfJointKind::Revolute => Some(JointType::Revolute),
            UrdfJointKind::Prismatic => Some(JointType::Prismatic),
            UrdfJointKind::Continuous => Some(JointType::Continuous),
            UrdfJointKind::Floating => Some(JointType::Floating),
            UrdfJointKind::Planar => Some(JointType::Planar),
            UrdfJointKind::Spherical => Some(JointType::Revolute),
        };
        let ghost jv = j@;
        proof {
            let f = |x: UrdfJointView| x.kind != UrdfJointKind::Fixed;
            done.lemma_filter_push(jv, f);
        }
        match kind {
            None => {},
            Some(joint_type) => {
                let zero = |x: u64| -> (z: bool)
                    ensures
                        z == is_zero_bits(x),
                    { x == 0 || x == 0x8000_0000_0000_0000 };
                let limits = if zero(j.lower) && zero(j.upper) && zero(j.effort) {
                    None
                } else {
                    Some(
                        JointLimits {
                            lower: j.lower,
                            upper: j.upper,
                            effort: j.effort,
                            velocity: j.velocity,
                        },
                    )
                };
                r.push(
                    JointInfo {
                        name: j.name,
                        joint_type,
                        parent_link: j.parent,
                        child_link: j.child,
                        limits,
                    },
                );
            },
        }
        proof {
            done = done.push(jv);
        }
    }
    assert(done =~= all);
    r
}

/// The movable joints of a URDF document, or `Error::Urdf` with the reader's
/// message when the document does not read.
pub fn extract_joints(urdf_xml: &str) -> (r: Result<Vec<JointInfo>, Error>)
    ensures
        match urdf_reading(urdf_xml@) {
            Ok(joints) => r matches Ok(list) && shows_joints(list@, joints),
            Err(m) => r matches Err(Error::Urdf(t)) && t@ == "failed to parse URDF: "@ + m,
        },
{
    match read_urdf(urdf_xml) {
        Ok(joints) => Ok(joints_from(joints)),
        Err(m) => Err(Error::Urdf(concat2("failed to parse URDF: ", m.as_str()))),
    }
}

/// Every joint listed is a movable joint of the description shown with its
/// own kind: a revolute, prismatic, continuous, floating or planar joint
/// keeps that type, a spherical one is shown as revolute, and no fixed joint
/// is listed. Its name and links are the joint's own.
pub proof fn lemma_joint_types_kept(list: Seq<JointInfo>, joints: Seq<UrdfJointView>)
    requires
        shows_joints(list, joints),
    ensures
        forall|i: int|
            0 <= i < list.len() ==> {
                let k = #[trigger] movable(joints)[i].kind;
                let t = list[i].joint_type;
                &&& joints.contains(movable(joints)[i])
                &&& k != UrdfJointKind::Fixed
                &&& t != JointType::Fixed
                &&& (k == UrdfJointKind::Revolute ==> t == JointType::Revolute)
                &&& (k == UrdfJointKind::Prismatic ==> t == JointType::Prismatic)
                &&& (k == UrdfJointKind::Continuous ==> t == JointType::Continuous)
                &&& (k == UrdfJointKind::Floating ==> t == JointType::Floating)
                &&& (k == UrdfJointKind::Planar ==> t == JointType::Planar)
                &&& (k == UrdfJointKind::Spherical ==> t == JointType::Revolute)
                &&& list[i].name@ == movable(joints)[i].name
                &&& list[i].parent_link@ == movable(joints)[i].parent
                &&& list[i].child_link@ == movable(joints)[i].child
            },
{
    let f = |j: UrdfJointView| j.kind != UrdfJointKind::Fixed;
    assert forall|i: int| 0 <= i < list.len() implies {
        let k = #[trigger] movable(joints)[i].kind;
        let t = list[i].joint_type;
        &&& joints.contains(movable(joints)[i])
        &&& k != UrdfJointKind::Fixed
        &&& t != JointType::Fixed
        &&& (k == UrdfJointKind::Revolute ==> t == JointType::Revolute)
        &&& (k == UrdfJointKind::Prismatic ==> t == JointType::Prismatic)
        &&& (k == UrdfJointKind::Continuous ==> t == JointType::Continuous)
        &&& (k == UrdfJointKind::Floating ==> t == JointType::Floating)
        &&& (k == UrdfJointKind::Planar ==> t == JointType::Planar)
        &&& (k == UrdfJointKind::Spherical ==> t == JointType::Revolute)
        &&& list[i].name@ == movable(joints)[i].name
        &&& list[i].parent_link@ == movable(joints)[i].parent
        &&& list[i].child_link@ == movable(joints)[i].child
    } by {
        assert(joint_entry(list[i], movable(joints)[i]));
        assert(movable(joints) == joints.filter(f));
        joints.lemma_filter_pred(f, i);
        assert(joints.filter(f).contains(movable(joints)[i]));
        joints.lemma_filter_contains_rev(f, movable(joints)[i]);
    }
}

} // verus!
