//! The native backend's analyses.
pub mod layout;
pub mod layout_laws;
pub mod mangle;
pub mod mono;
pub mod rt_abi;
pub mod target;
pub mod target_laws;
