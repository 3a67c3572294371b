//! Identity, chain registration, telemetry and self-update logic shared by
//! the miner and validator nodes.

pub mod decimal;
pub mod endpoint;
pub mod error;
pub mod integrity;
pub mod ledger;
pub mod registrar;
pub mod render;
pub mod telemetry;
pub mod updater;
pub mod version;
pub mod wallet;
