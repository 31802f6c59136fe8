//! A permissioned record-keeping engine for physical-equipment maintenance
//! scheduling: a closed set of mutating commands and read-only queries,
//! executed against a key-value state and gated by role-based authorization.
//!
//! The host environment sequences invocations one at a time, resolves the
//! caller identity, supplies block time, and persists the state between
//! invocations; this crate holds the verified core that decides and applies
//! each command or query.
//!
//! Two details the data model leaves open are fixed here and stated in the
//! contracts:
//! - `AddEquipment` and `UpdateThreshold` are not authorization-gated; all
//!   other mutating commands require the exact role their handler names.
//! - A point lookup (`GetEquipmentInfo`, `GetUserDetails`, and the loads done
//!   by `UpdateThreshold` and `ResetMaintenance`) on an absent key fails with
//!   `NotFound`; a collection read (`GetMaintenanceHistory`, `ListEquipment`)
//!   on an absent key returns an empty collection.

pub mod auth;
pub mod execute;
pub mod kv;
pub mod laws;
pub mod msg;
pub mod order;
pub mod query;
pub mod state;
pub mod store;

pub use state::ContractInfo;
pub use state::Equipment;
pub use state::MaintenanceLog;
pub use state::Organization;
pub use state::User;
pub use state::UserRole;
