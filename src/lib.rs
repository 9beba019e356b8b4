pub mod derive;
pub mod export;
pub mod extract;
pub mod models;
pub mod sql;
pub mod text;

pub use models::{CardMetadata, FieldSpec, FieldType, SimpleFormat};
