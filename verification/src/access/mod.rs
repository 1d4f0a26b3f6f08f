//! Line access.

pub mod access_laws;
pub mod line_registry;
pub mod volte;
