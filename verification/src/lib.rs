//! Schema analysis and factory synthesis for declarative data models.
//!
//! A record type is described by an explicit [`schema::RecordShape`] value:
//! its name, its ordered named fields, and the annotations attached to each
//! field. Analysis validates the shape, parses the annotations into typed
//! attributes, and derives the relations between records. From the resulting
//! description a runtime factory builds record instances, resolving related
//! records first and handing the fully populated instance to a pluggable
//! persistence backend.

pub mod analysis;
pub mod attrs;
pub mod error;
pub mod factory;
pub mod factory_analysis;
pub mod laws;
pub mod names;
pub mod persist;
pub mod queries;
pub mod schema;
pub mod values;

pub use names::is_valid_ident;
pub use persist::Persistable;
