//! Audit sampling and best-result selection for a queue-driven page
//! performance worker.
pub mod audit;
pub mod dispatch;
pub mod error;
pub mod lh_client;
pub mod lh_models;
pub mod models;
pub mod statistics;
