//! Verified logic for ZTF alerts: their enrichment, the filters that run over them, and the
//! orbits behind their moving objects.

pub mod enrichment;
pub mod filter;
pub mod utils;
