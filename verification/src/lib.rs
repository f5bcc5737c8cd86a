//! Verified core of a scene-model generator: a geometry kernel with
//! index-safe editing, a typed-buffer packer, a default-omitting JSON
//! serializer for the scene-graph document, a strict binary-container
//! writer and validating reader, a publish slot, and the decision logic
//! of the plugin-invocation host.
pub mod document;
pub mod error;
pub mod geometry;
pub mod glb;
pub mod host;
pub mod json;
pub mod scalar;
pub mod slot;

pub use scalar::Real;
pub use scalar::Real32;
