//! A location-tracking service: GPS fixes reported with a shared secret,
//! stored once per timestamp, listed in ascending timestamp order.

pub mod gate;
pub mod handlers;
pub mod location;
pub mod schema;
pub mod service;
pub mod store;
pub mod text;
