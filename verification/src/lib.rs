//! Verified core of a BLDC motor controller and of its serial host link.

pub mod cobs;
pub mod comm;
pub mod control;
pub mod estimator;
pub mod gui;
pub mod link;
pub mod protocol;
pub mod text;
pub mod trap;
