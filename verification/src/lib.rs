//! Core of a tiling window manager: a geometry kernel for rectangle
//! arithmetic and directional predicates, a generic focus-tracking selection
//! ring, and a binary-split tiling tree that partitions a desktop's area
//! among managed windows.
//!
//! Everything here is pure, single-threaded logic: the display-server
//! adapter, configuration loading and all I/O live outside this crate and
//! talk to it through plain values.

pub mod types;
pub mod geometry;
pub mod change;
pub mod cycle;
pub mod tree;
pub mod decoration;
pub mod event;
pub mod input;
pub mod rule;
pub mod stack;
pub mod workspace;
pub mod xutils;
