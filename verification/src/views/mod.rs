//! The decisions behind the application's pages: what they read from the
//! device, how they decode and encode it, and the state they keep.
pub mod connection;
pub mod navbar;
pub mod parameters;
pub mod status;
