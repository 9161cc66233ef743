//! Enrichment of ZTF alerts.

pub mod alert;
pub mod photometry;
pub mod pipeline;
pub mod association;
pub mod properties;
pub mod classify;
pub mod worker;
pub mod villar;
pub mod photometry_laws;
pub mod property_laws;
pub mod association_laws;
pub mod classification_laws;
pub mod worker_laws;
pub mod villar_laws;
pub mod pipeline_laws;
pub mod operation_laws;
