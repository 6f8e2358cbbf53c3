//! Notification core of a car-wash back office: the domain records, the
//! role-based routing of real-time notifications, the registry of connected
//! sessions and the polling monitor that turns snapshots of the sales table
//! into notifications.

pub mod models;
pub mod messages;
pub mod session;
pub mod server;
pub mod broadcast;
pub mod text;
pub mod monitor;
pub mod laws;
