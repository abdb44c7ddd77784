//! Verified core of a Soroban learning-management contract: role-based
//! access control and assessment scoring, kept in the contract's storage.

pub mod access;
pub mod assessment;
pub mod contract;
pub mod error;
pub mod host;
pub mod laws;
pub mod progress;
pub mod runs;
pub mod storage;
pub mod types;

pub use access::{AccessControl, AccessError, Role, UserRecord};
pub use assessment::{AssessmentConfig, AssessmentError, AssessmentResult, AssessmentService};
pub use contract::LmsContract;
pub use error::Error;
pub use progress::ProgressError;
pub use storage::StorageKey;
pub use types::LmsVersion;
