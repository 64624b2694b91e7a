//! A ranked request dispatcher whose routes carry forwarding-capable
//! parameter and request guards.
pub mod text;
pub mod outcome;
pub mod path;
pub mod roles;
pub mod convert;
pub mod forms;
pub mod render;
pub mod response;
pub mod handlers;
pub mod routing;
pub mod apps;
