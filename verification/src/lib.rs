//! Sandbox policies, the sandbox index and the plans that the sandbox backends carry out.

pub mod text;
pub mod paths;
pub mod policy;
pub mod digest;
pub mod proxy;
pub mod mechanism;
pub mod krun;
pub mod seatbelt;
pub mod mac;
pub mod podman;
pub mod state;
pub mod secrets;
pub mod launch;
pub mod cli;
