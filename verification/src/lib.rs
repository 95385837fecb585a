//! Verified core of the `yarp` system installer: disk partition layout,
//! device paths, package list handling and the command plans that the
//! installer runs.

pub mod text;
pub mod command;
pub mod sysinfo;
pub mod config;
pub mod components;
pub mod validation;
pub mod install;
pub mod installer;
