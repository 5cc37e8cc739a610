//! Verified core of the teeter visualizer: the discrete rules behind the
//! renderer, the input mapping, the preset cycling and the command line.

pub mod audio;
pub mod cli;
pub mod engine;
pub mod fivecell;
pub mod input;
pub mod ring;
pub mod vulkan;
