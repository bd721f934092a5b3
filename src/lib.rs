//! A small session in which a host hands out roles to a roster of members.
//!
//! The session moves `Blank -> Standby -> Picked` through a verified reducer;
//! each client follows the shared state through a runner whose delivery rules
//! are proved, and shows each participant only the role assigned to them.

pub mod state;
pub mod reducer;
pub mod runner;
pub mod host;
pub mod view;
pub mod client;
