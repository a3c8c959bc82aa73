//! View-model and protocol logic of the XSensor BLE sensor monitor.
pub mod api;
pub mod context;
pub mod text;
pub mod views;
