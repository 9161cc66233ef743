//! Shared building blocks: text, calendars, designations and catalogues.

pub mod text;
pub mod text_laws;
pub mod designation;
pub mod designation_laws;
pub mod double;
pub mod double_laws;
pub mod calendar;
pub mod bson_doc;
pub mod mpcorb;
pub mod sso_geometry;
pub mod comets;
pub mod orbits;
pub mod orbit_laws;
pub mod refresh;
pub mod catalogue_laws;
pub mod operation_laws;
pub mod grouping;
pub mod lists;
pub mod sorting;
pub mod stages;
pub mod stage_laws;
pub mod survey;

pub use bson_doc::bson_number;
