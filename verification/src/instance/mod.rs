//! The managed Instance: its hardware, its stores, its events and its lifecycle.

pub mod accel;
pub mod argv;
pub mod base64;
pub mod catalog;
pub mod creation;
pub mod download;
pub mod event_buffer;
pub mod hardware_spec;
pub mod image_store;
pub mod iso_store;
pub mod orchestrator;
pub mod recording;
pub mod serial;
pub mod store_path;
pub mod vnc;
