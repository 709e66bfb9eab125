//! Extraction and conversion layer of a client for a transit site that
//! publishes its bus lines, stations and live vehicle positions only as
//! rendered HTML and behind token-protected form endpoints.

pub mod convert;
pub mod decimal;
pub mod extract;
pub mod model;
pub mod protocol;
pub mod text;
