//! Boot entry listing and next-boot selection: the verified core of a
//! cross-platform (Linux / Windows) next-boot system switcher.

pub mod text;
pub mod models;
pub mod pattern;
pub mod linux;
pub mod windows;
pub mod cli;
pub mod gui;
pub mod elevation;
