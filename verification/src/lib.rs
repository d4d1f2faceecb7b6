//! Talos: the protocol, configuration and routing logic shared by the agent
//! that runs beside ROS 2 and the workstation clients.
use vstd::prelude::*;

pub mod agent;
pub mod assoc;
pub mod config;
pub mod error;
pub mod number;
pub mod sort;
pub mod text;
pub mod protocol;
pub mod session;
pub mod urdf;
pub mod certs;
pub mod cli;
pub mod echo;
