//! Signature removal and bootstrap decisions for a browser-automation driver.
//!
//! The library works on plain values only. It scans the bytes of a driver
//! executable for a fixed marker, overwrites the region that starts at each
//! marker with random letters, and decides, step by step, what the code that
//! owns files, processes and sockets has to do next.

pub mod alphabet;
pub mod entropy;
pub mod error;
pub mod fetch;
pub mod launcher;
pub mod marker;
pub mod options;
pub mod patch;
pub mod platform;
pub mod session;
pub mod text;
