pub mod errors;

pub use errors::ProgressError;
