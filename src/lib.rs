//! A lightweight container manager: persisted container records, their
//! lifecycle rules, and the plans of outside work that each command needs.
pub mod cli;
pub mod codec;
pub mod config;
pub mod container;
pub mod error;
pub mod laws;
pub mod storage;
pub mod update;

pub use cli::{Cli, Commands};
pub use codec::{decode_fields, encode_fields};
pub use config::{detect_runtime, ContainerConfig, RuntimeTag, Status};
pub use container::{ContainerManager, CreatePlan, EnterPlan, LaunchPlan, LogView, RemovePlan, StopPlan};
pub use error::DockError;
pub use storage::Storage;
pub use update::{UpdateFailure, UpdateStage, UpdateStep};
