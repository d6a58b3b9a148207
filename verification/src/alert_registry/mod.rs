//! The alert registry: alert configurations keyed by a numeric ID, indexed by
//! owner and by watched contract.
pub mod contract;
pub mod laws;
pub mod storage;
mod table;
pub mod types;

pub use contract::AlertRegistry;
pub use storage::{AlertEnv, AlertState};
pub use types::{Abort, AlertConfig, AlertConfigView, AlertEvent, AlertInput, ContractError, DataKey};
