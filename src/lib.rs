//! A descriptor-driven mapping between record values and one table of a
//! column-family store: query templates, parameter binding and row hydration.
pub mod binder;
pub mod descriptor;
pub mod facade;
pub mod hydrator;
pub mod laws;
pub mod query;
pub mod registry;
pub mod value;
