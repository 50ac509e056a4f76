//! Supervision core for game-server instances: a typed, validated settings
//! registry, the backup scheduler and the instance lifecycle.

pub mod error;
pub mod value;
pub mod setting;
pub mod manifest;
pub mod backup;
pub mod events;
pub mod files;
pub mod minecraft;
pub mod properties;
pub mod bedrock;
pub mod instance_manager;
