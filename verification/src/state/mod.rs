//! The state store: one aggregate per service, folded from the records of
//! its checks.

pub mod aggregate;
pub mod laws;
pub mod model;
pub mod record;
pub mod store;

pub use model::{CheckStatus, CheckStatusView, HealthStatus, ServiceStatus, ServiceStatusView};
pub use record::Sample;
pub use store::{AppState, StoreView};
