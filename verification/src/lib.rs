//! A worker-pool matrix multiplication library: dense integer matrices,
//! a verified dot-product primitive, a dispatch/collect engine model, and
//! keyed counter stores for metrics.

pub mod error;
pub mod matrix;
pub mod metrics;
pub mod render;
pub mod vector;

pub use error::Error;
pub use matrix::{multiply, multiply_with_pool, process_task, Matrix, MsgInput, MsgOutput};
pub use metrics::amap::AMapMetrics;
pub use metrics::cmap::CMapMetrics;
pub use metrics::Metrics;
pub use vector::{dot_product, Vector};
