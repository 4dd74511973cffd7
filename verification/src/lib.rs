//! Versioned schema-migration engine for a relational database whose schema
//! is split into a hidden `data` schema, migrated incrementally, and a
//! derived `api` schema that is always rebuilt from scratch.
//!
//! The library holds the decision logic: semantic-version ordering, migration
//! resolution, plan construction and version bookkeeping. Running the plans
//! (spawning the external database tools) is left to the embedding program.

pub mod engine;
pub mod error;
pub mod model;
pub mod options;
pub mod resolve;
pub mod version;

pub use engine::{Action, Command, Database, DirListing};
pub use error::EngineError;
pub use options::{ConnectionParameters, Options, PgDump, PgRestore, Psql};
pub use resolve::{DirEntry, Migration};
pub use version::Version;
