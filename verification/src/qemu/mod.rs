//! The QEMU side: what is launched, and the QMP protocol spoken to it.

pub mod driver;
pub mod json;
pub mod qmp_client;
pub mod real_driver;
