//! FIBRE block relay for a Bitcoin node: configuration, startup and event decisions.

pub mod address;
pub mod config;
pub mod module;
pub mod send;
pub mod spelling;
pub mod startup;
pub mod text;
pub mod wire;
pub mod written;

pub use config::{FibreModuleConfig, FibrePeerEntry};
pub use module::FibreModule;
pub use wire::FibreConfig;
