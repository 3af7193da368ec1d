//! Client-side durability layer for a time-series ingestion API.
//!
//! Measurements are grouped into records, rendered as line protocol, and
//! handed to a transport. What the transport does not accept is spilled to a
//! backlog and replayed by later writes.

pub mod auth;
pub mod backlogging;
pub mod client;
pub mod credentials;
pub mod error;
pub mod measurement;
pub mod model;
pub mod ordered;
pub mod precision;
pub mod record;
pub mod refinement;
pub mod text;
pub mod timestamp;
pub mod transport;
pub mod value;

pub use auth::Credentials;
pub use backlogging::file::FileBacklog;
pub use backlogging::Backlog;
pub use backlogging::NoopBacklog;
pub use client::Client;
pub use error::InfluxError;
pub use error::InfluxErrorAnnotate;
pub use error::InfluxResult;
pub use measurement::Measurement;
pub use precision::Precision;
pub use record::Record;
pub use timestamp::Timestamp;
pub use value::Value;
