//! Driver records for a dispatch platform: compact identifiers, page-based
//! listing, the driver rules and the fee service that reacts to fee requests.

pub mod clock;
pub mod config;
pub mod entity;
pub mod id;
pub mod money;
pub mod page;
pub mod repository;
pub mod service;
pub mod text;

