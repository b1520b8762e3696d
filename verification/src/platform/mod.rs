//! The rules of each operating system.
pub mod linux;
pub mod macos;
pub mod unix;
pub mod windows;
