//! Configuration logic of loading states: the builder that describes a
//! loading state, the per-state configuration that the app keeps, and the
//! registries of dynamic assets and dynamic asset collection files.

pub mod dynamic_asset;
pub mod laws;
pub mod loading_state;
