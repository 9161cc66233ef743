//! Filters over ZTF alerts.

pub mod alerts;
pub mod pipeline;
pub mod history;
pub mod worker;
pub mod pipeline_laws;
pub mod alert_laws;
pub mod history_laws;
pub mod worker_laws;
pub mod operation_laws;
