//! Schema-governed payload validation: envelopes tagged with schema
//! coordinates, a cache-backed loader that reconciles schema documents from an
//! ordered chain of sources, and a structural validator for a restricted
//! JSON-Schema subset.

pub mod archive;
pub mod cache;
pub mod envelope;
pub mod json;
pub mod loader;
pub mod service;
pub mod text;
pub mod validator;

pub use cache::SchemaCache;
pub use envelope::Envelope;
pub use envelope::Header;
pub use json::JsonValue;
pub use loader::LoaderStatus;
pub use loader::SchemaLoader;
pub use loader::SourceOutcome;
pub use service::PactsService;
pub use validator::ValidationResult;
pub use validator::Validator;
